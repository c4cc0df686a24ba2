//! The character sheet as messages: characteristics, skills, weapons and items.
use crate::character::item::{spec_item_text, Item, ItemView};
use crate::character::skill::{Skill, SkillView};
use crate::character::weapon::{spec_localised_dice, Ammo, Weapon, WeaponView};
use crate::character::{
    find_skill, spec_damage_bonus, spec_find_skill, spec_status_hp_raw, spec_status_joined, spec_status_magic_raw,
    spec_status_sanity_raw, spec_skill_matches, spec_skill_views, Character, CharacterView, SkillMatch,
};
use crate::locale::{locale_text_by_tag_lang, spec_text, LocaleEntry, LocaleLang, LocaleTag};
use crate::message::{spec_description_only, spec_tag_text, MessageContent, MessageView};
use crate::roller::battle::{spec_sign_diff, spec_str_order, str_order};
use crate::table::{render_table, spec_records_view, spec_table_text};
use crate::text::{int_to_string, push_int, replace_char, spec_int_str, spec_replace};
use crate::utils::{
    lemma_first_index, lemma_insert_sorted_at, lemma_sort_by_elems, lemma_sort_step, spec_sort_by, spec_uppercase_first_letter, to_uppercase_first_letter,
};
use vstd::prelude::*;

verus! {

/// Order of two truth values: false first.
pub open spec fn spec_bool_order(a: bool, b: bool) -> int {
    if a == b { 0 } else if !a { -1 } else { 1 }
}

/// Order of two skills on the sheet: by their name in the sheet's language,
/// then by their Polish and English names, value, and flags.
pub open spec fn spec_skill_row_order(a: (Seq<char>, SkillView), b: (Seq<char>, SkillView)) -> int {
    let c = spec_str_order(a.0, b.0);
    if c != 0 { c } else {
    let c = spec_str_order(a.1.name.1, b.1.name.1);
    if c != 0 { c } else {
    let c = spec_str_order(a.1.name.0, b.1.name.0);
    if c != 0 { c } else {
    let c = spec_sign_diff(a.1.value as int, b.1.value as int);
    if c != 0 { c } else {
    let c = spec_bool_order(a.1.to_improve, b.1.to_improve);
    if c != 0 { c } else {
    let c = spec_bool_order(a.1.improvable, b.1.improvable);
    if c != 0 { c } else {
    let c = spec_bool_order(a.1.default, b.1.default);
    if c != 0 { c } else {
    spec_bool_order(a.1.constant, b.1.constant)
    }}}}}}}
}

pub open spec fn spec_skill_row_lt() -> spec_fn((Seq<char>, SkillView), (Seq<char>, SkillView)) -> bool {
    |a: (Seq<char>, SkillView), b: (Seq<char>, SkillView)| spec_skill_row_order(a, b) < 0
}

/// The skills of a sheet in the order it lists them, each with its name in
/// the sheet's language.
pub open spec fn spec_skill_rows(lang: LocaleLang, skills: Seq<SkillView>) -> Seq<(Seq<char>, SkillView)> {
    spec_sort_by(skills.map_values(|s: SkillView| (spec_text(s.name, lang), s)), spec_skill_row_lt())
}

fn bool_order(a: bool, b: bool) -> (r: i8)
    ensures
        r as int == spec_bool_order(a, b),
{
    if a == b { 0 } else if !a { -1 } else { 1 }
}

fn skill_row_order(a: &(String, Skill), b: &(String, Skill)) -> (r: i8)
    ensures
        r as int == spec_skill_row_order((a.0@, a.1@), (b.0@, b.1@)),
{
    let c = str_order(a.0.as_str(), b.0.as_str());
    if c != 0 { return c; }
    let c = str_order(a.1.name.pl.as_str(), b.1.name.pl.as_str());
    if c != 0 { return c; }
    let c = str_order(a.1.name.en.as_str(), b.1.name.en.as_str());
    if c != 0 { return c; }
    let c: i8 = if a.1.value < b.1.value { -1 } else if a.1.value > b.1.value { 1 } else { 0 };
    if c != 0 { return c; }
    let c = bool_order(a.1.to_improve, b.1.to_improve);
    if c != 0 { return c; }
    let c = bool_order(a.1.improvable, b.1.improvable);
    if c != 0 { return c; }
    let c = bool_order(a.1.default, b.1.default);
    if c != 0 { return c; }
    bool_order(a.1.constant, b.1.constant)
}

pub open spec fn spec_row_views(s: Seq<(String, Skill)>) -> Seq<(Seq<char>, SkillView)> {
    s.map_values(|r: (String, Skill)| (r.0@, r.1@))
}

/// The skills in the order the sheet lists them.
pub fn sorted_skill_rows(lang: LocaleLang, skills: &Vec<Skill>) -> (r: Vec<(String, Skill)>)
    ensures
        spec_row_views(r@) == spec_skill_rows(lang, spec_skill_views(skills@)),
{
    let ghost input = spec_skill_views(skills@).map_values(|s: SkillView| (spec_text(s.name, lang), s));
    let ghost lt = spec_skill_row_lt();
    let mut out: Vec<(String, Skill)> = Vec::new();
    let mut i: usize = 0;
    assert(input.take(0) =~= Seq::<(Seq<char>, SkillView)>::empty());
    assert(spec_row_views(out@) =~= spec_sort_by(input.take(0), lt));
    while i < skills.len()
        invariant
            input == spec_skill_views(skills@).map_values(|s: SkillView| (spec_text(s.name, lang), s)),
            lt == spec_skill_row_lt(),
            i <= skills@.len(),
            spec_row_views(out@) == spec_sort_by(input.take(i as int), lt),
        decreases skills@.len() - i,
    {
        let row = (skills[i].name.get(lang), skills[i].clone());
        assert((row.0@, row.1@) == input[i as int]);
        let ghost before = spec_row_views(out@);
        let mut p: usize = out.len();
        while p > 0 && skill_row_order(&row, &out[p - 1]) < 0
            invariant
                p <= out@.len(),
                before == spec_row_views(out@),
                lt == spec_skill_row_lt(),
                forall|k: int| p <= k < before.len() ==> lt((row.0@, row.1@), #[trigger] before[k]),
            decreases p,
        {
            p = p - 1;
        }
        proof {
            lemma_insert_sorted_at(before, (row.0@, row.1@), lt, p as int);
            lemma_sort_step(input, lt, i as int);
        }
        let ghost rv = (row.0@, row.1@);
        out.insert(p, row);
        assert(spec_row_views(out@) =~= before.insert(p as int, rv));
        i += 1;
    }
    assert(input.take(skills@.len() as int) =~= input);
    out
}

/// The mark of a skill to improve, or of one not to.
pub open spec fn spec_improve_mark(to_improve: bool) -> Seq<char> {
    if to_improve { "☑"@ } else { "☐"@ }
}

/// The three cells of a skill on the sheet: its mark, its name and its value.
pub open spec fn spec_skill_cells(r: (Seq<char>, SkillView)) -> Seq<Seq<char>> {
    seq![spec_improve_mark(r.1.to_improve), r.0, spec_int_str(r.1.value as int)]
}

/// How many skills the first column of a table holds: half, rounded up.
pub open spec fn spec_first_column_len(n: int) -> int {
    n / 2 + n % 2
}

/// The rows of a two-column table of skills: the first half of the skills
/// on the left, the rest on the right.
pub open spec fn spec_skill_table_rows(c: Seq<(Seq<char>, SkillView)>) -> Seq<Seq<Seq<char>>> {
    let h = spec_first_column_len(c.len() as int);
    Seq::new(h as nat, |i: int| if i + h < c.len() {
        spec_skill_cells(c[i]) + spec_skill_cells(c[i + h])
    } else {
        spec_skill_cells(c[i]) + seq![Seq::<char>::empty(), Seq::<char>::empty(), Seq::<char>::empty()]
    })
}

/// The skill messages of a sheet: the skills in order, in groups of 48, each
/// group a table of two columns.
pub open spec fn spec_skill_messages(lang: LocaleLang, skills: Seq<SkillView>) -> Seq<MessageView> {
    let rows = spec_skill_rows(lang, skills);
    let n = rows.len() as int;
    Seq::new(((n + 47) / 48) as nat, |k: int| {
        let c = rows.subrange(48 * k, if 48 * k + 48 < n { 48 * k + 48 } else { n });
        spec_description_only("```text\n"@ + spec_table_text(spec_skill_table_rows(c), seq![1usize, 4usize], seq![2usize, 5usize]) + "```\n"@)
    })
}

fn skill_cells(r: &(String, Skill)) -> (v: Vec<String>)
    ensures
        v@.len() == 3,
        v@.map_values(|c: String| c@) == spec_skill_cells((r.0@, r.1@)),
{
    let mark = if r.1.to_improve { String::from_str("☑") } else { String::from_str("☐") };
    let v = vec![mark, r.0.clone(), int_to_string(r.1.value as i64)];
    assert(v@.map_values(|c: String| c@) =~= spec_skill_cells((r.0@, r.1@)));
    v
}

fn skill_table_rows(c: &[(String, Skill)]) -> (v: Vec<Vec<String>>)
    ensures
        spec_records_view(v@) == spec_skill_table_rows(spec_row_views(c@)),
{
    let n = c.len();
    let h = n / 2 + n % 2;
    let ghost cv = spec_row_views(c@);
    let ghost want = spec_skill_table_rows(cv);
    let mut v: Vec<Vec<String>> = Vec::new();
    let mut i: usize = 0;
    while i < h
        invariant
            n == c@.len(),
            h == spec_first_column_len(n as int),
            cv == spec_row_views(c@),
            want == spec_skill_table_rows(cv),
            i <= h,
            spec_records_view(v@) == want.take(i as int),
        decreases h - i,
    {
        let mut row = skill_cells(&c[i]);
        if i + h < n {
            let right = skill_cells(&c[i + h]);
            let ghost l = row@;
            let mut j: usize = 0;
            while j < 3
                invariant
                    right@.len() == 3,
                    j <= 3,
                    row@ == l + right@.take(j as int),
                decreases 3 - j,
            {
                row.push(right[j].clone());
                assert(right@.take(j as int + 1) =~= right@.take(j as int).push(right@[j as int]));
                j += 1;
            }
            assert(right@.take(3) =~= right@);
            assert(row@.map_values(|x: String| x@) =~= l.map_values(|x: String| x@) + right@.map_values(|x: String| x@));
        } else {
            let ghost l = row@;
            row.push(String::new());
            row.push(String::new());
            row.push(String::new());
            assert(row@.map_values(|x: String| x@) =~= l.map_values(|x: String| x@)
                + seq![Seq::<char>::empty(), Seq::<char>::empty(), Seq::<char>::empty()]);
        }
        let ghost before = spec_records_view(v@);
        let ghost rv = row@;
        v.push(row);
        assert(spec_records_view(v@) =~= before.push(rv.map_values(|x: String| x@)));
        assert(spec_records_view(v@) =~= want.take(i as int + 1));
        i += 1;
    }
    assert(want.take(h as int) =~= want);
    v
}

/// The skills of a sheet as messages.
pub fn skill_messages(lang: LocaleLang, skills: &Vec<Skill>) -> (r: Vec<MessageContent>)
    ensures
        r@.map_values(|m: MessageContent| m@) == spec_skill_messages(lang, spec_skill_views(skills@)),
{
    let rows = sorted_skill_rows(lang, skills);
    let ghost rv = spec_row_views(rows@);
    let ghost want = spec_skill_messages(lang, spec_skill_views(skills@));
    let n = rows.len();
    let mut out: Vec<MessageContent> = Vec::new();
    let mut start: usize = 0;
    let mut k: usize = 0;
    while start < n
        invariant
            rv == spec_row_views(rows@),
            rv == spec_skill_rows(lang, spec_skill_views(skills@)),
            want == spec_skill_messages(lang, spec_skill_views(skills@)),
            n == rows@.len(),
            start <= n,
            start < n ==> start == 48 * k,
            start == n ==> k == (n + 47) / 48,
            k <= (n + 47) / 48,
            out@.map_values(|m: MessageContent| m@) == want.take(k as int),
        decreases n + 48 - start,
    {
        let end = if n - start > 48 { start + 48 } else { n };
        assert(k < (n + 47) / 48) by (nonlinear_arith)
            requires start == 48 * k, start < n;
        assert(end == n ==> k + 1 == (n + 47) / 48) by (nonlinear_arith)
            requires start == 48 * k, start < n, end == n ==> n - start <= 48;
        assert(end == (if 48 * k + 48 < n { 48 * k + 48 } else { n as int }));
        let chunk = vstd::slice::slice_subrange(rows.as_slice(), start, end);
        assert(spec_row_views(chunk@) =~= rv.subrange(start as int, end as int));
        let records = skill_table_rows(chunk);
        let left = vec![1usize, 4usize];
        let right = vec![2usize, 5usize];
        assert(left@ =~= seq![1usize, 4usize]);
        assert(right@ =~= seq![2usize, 5usize]);
        let mut d = String::from_str("```text\n");
        let t = render_table(records, left, right);
        d.append(t.as_str());
        d.append("```\n");
        let m = MessageContent { title: String::new(), description: d, footer: String::new(), colour: None };
        let ghost before = out@.map_values(|m: MessageContent| m@);
        out.push(m);
        assert(out@.map_values(|m: MessageContent| m@) =~= before.push(m@));
        assert(out@.map_values(|m: MessageContent| m@) =~= want.take(k as int + 1));
        start = end;
        k = k + 1;
    }
    assert(want.take(k as int) =~= want);
    out
}

/// Order of two optional texts: none first.
pub open spec fn spec_opt_str_order(a: Option<Seq<char>>, b: Option<Seq<char>>) -> int {
    match (a, b) {
        (None, None) => 0,
        (None, Some(_)) => -1,
        (Some(_), None) => 1,
        (Some(x), Some(y)) => spec_str_order(x, y),
    }
}

/// Order of two items: by name, quantity, then unit.
pub open spec fn spec_item_order(a: ItemView, b: ItemView) -> int {
    let c = spec_str_order(a.name, b.name);
    if c != 0 { c } else {
    let c = spec_sign_diff(a.quantity as int, b.quantity as int);
    if c != 0 { c } else { spec_opt_str_order(a.unit, b.unit) }}
}

pub open spec fn spec_item_lt() -> spec_fn(ItemView, ItemView) -> bool {
    |a: ItemView, b: ItemView| spec_item_order(a, b) < 0
}

pub open spec fn spec_item_views(s: Seq<Item>) -> Seq<ItemView> {
    s.map_values(|i: Item| i@)
}

fn item_order(a: &Item, b: &Item) -> (r: i8)
    ensures
        r as int == spec_item_order(a@, b@),
{
    let c = str_order(a.name.as_str(), b.name.as_str());
    if c != 0 { return c; }
    let c: i8 = if a.quantity < b.quantity { -1 } else if a.quantity > b.quantity { 1 } else { 0 };
    if c != 0 { return c; }
    match (&a.unit, &b.unit) {
        (None, None) => 0,
        (None, Some(_)) => -1,
        (Some(_), None) => 1,
        (Some(x), Some(y)) => str_order(x.as_str(), y.as_str()),
    }
}

/// The items in the order the sheet lists them.
pub fn sorted_items(items: &Vec<Item>) -> (r: Vec<Item>)
    ensures
        spec_item_views(r@) == spec_sort_by(spec_item_views(items@), spec_item_lt()),
{
    let ghost input = spec_item_views(items@);
    let ghost lt = spec_item_lt();
    let mut out: Vec<Item> = Vec::new();
    let mut i: usize = 0;
    assert(input.take(0) =~= Seq::<ItemView>::empty());
    assert(spec_item_views(out@) =~= spec_sort_by(input.take(0), lt));
    while i < items.len()
        invariant
            input == spec_item_views(items@),
            lt == spec_item_lt(),
            i <= items@.len(),
            spec_item_views(out@) == spec_sort_by(input.take(i as int), lt),
        decreases items@.len() - i,
    {
        let x = items[i].clone();
        let ghost before = spec_item_views(out@);
        let mut p: usize = out.len();
        while p > 0 && item_order(&x, &out[p - 1]) < 0
            invariant
                p <= out@.len(),
                before == spec_item_views(out@),
                lt == spec_item_lt(),
                forall|k: int| p <= k < before.len() ==> lt(x@, #[trigger] before[k]),
            decreases p,
        {
            p = p - 1;
        }
        proof {
            lemma_insert_sorted_at(before, x@, lt, p as int);
            lemma_sort_step(input, lt, i as int);
        }
        let ghost xv = x@;
        out.insert(p, x);
        assert(spec_item_views(out@) =~= before.insert(p as int, xv));
        i += 1;
    }
    assert(input.take(items@.len() as int) =~= input);
    out
}

/// An item as the sheet lists it.
pub open spec fn spec_item_cell(lang: LocaleLang, i: ItemView) -> Seq<char> {
    "• "@ + spec_item_text(i, lang)
}

/// The rows of a two-column table of items.
pub open spec fn spec_item_table_rows(lang: LocaleLang, c: Seq<ItemView>) -> Seq<Seq<Seq<char>>> {
    let h = spec_first_column_len(c.len() as int);
    Seq::new(h as nat, |i: int| if i + h < c.len() {
        seq![spec_item_cell(lang, c[i]), spec_item_cell(lang, c[i + h])]
    } else {
        seq![spec_item_cell(lang, c[i]), Seq::<char>::empty()]
    })
}

/// The items of a sheet as text, closed by `end`.
pub open spec fn spec_items_text(lang: LocaleLang, items: Seq<ItemView>, end: Seq<char>) -> Seq<char> {
    let sorted = spec_sort_by(items, spec_item_lt());
    spec_tag_text(lang, LocaleTag::Items) + "\n```text\n"@ + (if sorted.len() == 0 {
        "("@ + spec_tag_text(lang, LocaleTag::NoItems) + ")\n"@
    } else {
        spec_table_text(spec_item_table_rows(lang, sorted), Seq::empty(), Seq::empty())
    }) + end
}

fn item_cell(lang: LocaleLang, item: &Item) -> (r: String)
    ensures
        r@ == spec_item_cell(lang, item@),
{
    let mut s = String::from_str("• ");
    let t = item.to_string(lang);
    s.append(t.as_str());
    s
}

fn item_table_rows(lang: LocaleLang, c: &Vec<Item>) -> (v: Vec<Vec<String>>)
    ensures
        spec_records_view(v@) == spec_item_table_rows(lang, spec_item_views(c@)),
{
    let n = c.len();
    let h = n / 2 + n % 2;
    let ghost want = spec_item_table_rows(lang, spec_item_views(c@));
    let mut v: Vec<Vec<String>> = Vec::new();
    let mut i: usize = 0;
    while i < h
        invariant
            n == c@.len(),
            h == spec_first_column_len(n as int),
            want == spec_item_table_rows(lang, spec_item_views(c@)),
            i <= h,
            spec_records_view(v@) == want.take(i as int),
        decreases h - i,
    {
        let left = item_cell(lang, &c[i]);
        let right = if i + h < n { item_cell(lang, &c[i + h]) } else { String::new() };
        let row = vec![left, right];
        let ghost before = spec_records_view(v@);
        let ghost rv = row@;
        v.push(row);
        assert(spec_records_view(v@) =~= before.push(rv.map_values(|x: String| x@)));
        assert(rv.map_values(|x: String| x@) =~= want[i as int]);
        assert(spec_records_view(v@) =~= want.take(i as int + 1));
        i += 1;
    }
    assert(want.take(h as int) =~= want);
    v
}

fn items_text(lang: LocaleLang, items: &Vec<Item>, end: &str) -> (r: String)
    ensures
        r@ == spec_items_text(lang, spec_item_views(items@), end@),
{
    let sorted = sorted_items(items);
    let mut out = locale_text_by_tag_lang(lang, LocaleTag::Items);
    out.append("\n```text\n");
    if sorted.len() == 0 {
        out.append("(");
        let t = locale_text_by_tag_lang(lang, LocaleTag::NoItems);
        out.append(t.as_str());
        out.append(")\n");
    } else {
        let records = item_table_rows(lang, &sorted);
        let no_columns: Vec<usize> = Vec::new();
        let t = render_table(records, no_columns.clone(), no_columns);
        out.append(t.as_str());
    }
    out.append(end);
    out
}

impl MessageContent {
    /// A list of items as a message.
    pub fn from_character_items(lang: LocaleLang, character_items: &Vec<Item>) -> (r: Self)
        ensures
            r@ == spec_description_only(spec_items_text(lang, spec_item_views(character_items@), "```\n"@)),
    {
        let d = items_text(lang, character_items, "```\n");
        MessageContent { title: String::new(), description: d, footer: String::new(), colour: None }
    }
}

/// Texts joined by a separator.
pub open spec fn spec_join(parts: Seq<Seq<char>>, sep: Seq<char>) -> Seq<char>
    decreases parts.len(),
{
    if parts.len() == 0 {
        Seq::<char>::empty()
    } else if parts.len() == 1 {
        parts[0]
    } else {
        spec_join(parts.drop_last(), sep) + sep + parts.last()
    }
}

pub open spec fn spec_weapon_lt() -> spec_fn(WeaponView, WeaponView) -> bool {
    |a: WeaponView, b: WeaponView| spec_str_order(a.name, b.name) < 0
}

pub open spec fn spec_weapon_views(s: Seq<Weapon>) -> Seq<WeaponView> {
    s.map_values(|w: Weapon| w@)
}

/// The damages of a weapon joined by `/`, with dice as the language writes them.
pub open spec fn spec_weapon_damage_text(lang: LocaleLang, w: WeaponView) -> Seq<char> {
    let j = spec_join(w.range_dmgs.map_values(|r: (Option<i32>, Seq<char>)| r.1), "/"@);
    match lang {
        LocaleLang::English => spec_replace(j, 'k', "d"@),
        LocaleLang::Polski => spec_replace(j, 'd', "k"@),
    }
}

/// The damage cell of a weapon: its damages, and the damage bonus where
/// the weapon adds it and the build gives one.
pub open spec fn spec_weapon_dmg_cell(lang: LocaleLang, w: WeaponView, build: i32) -> Seq<char> {
    spec_weapon_damage_text(lang, w) + (if w.apply_damage_modifier && build != 0 {
        "+"@ + (if w.half_damage_modifier { "½"@ } else { Seq::<char>::empty() }) + spec_tag_text(lang, LocaleTag::Db)
            + " ("@ + spec_localised_dice(spec_damage_bonus(build as int), lang)
            + (if w.half_damage_modifier { "x½"@ } else { Seq::<char>::empty() }) + ")"@
    } else {
        Seq::<char>::empty()
    })
}

pub open spec fn spec_range_cell(r: (Option<i32>, Seq<char>)) -> Seq<char> {
    match r.0 {
        Some(x) => spec_int_str(x as int) + " m"@,
        None => "-"@,
    }
}

pub open spec fn spec_opt_int_cell(o: Option<i32>) -> Seq<char> {
    match o {
        Some(n) => spec_int_str(n as int),
        None => "-"@,
    }
}

pub open spec fn spec_ammo_cell(o: Option<Ammo>) -> Seq<char> {
    match o {
        Some(a) => spec_int_str(a.clip_rounds as int) + "/"@ + spec_int_str(a.clip_size as int) + " ["@
            + spec_int_str(a.loose_rounds as int) + "]"@,
        None => "-"@,
    }
}

/// The skill cell of a weapon: the value and name of the first skill named
/// as the weapon's skill.
pub open spec fn spec_weapon_skill_cell(lang: LocaleLang, skills: Seq<SkillView>, w: WeaponView) -> Seq<char> {
    let k = skills[spec_find_skill(skills, SkillMatch::Name, w.skill)->0];
    spec_int_str(k.value as int) + " "@ + spec_text(k.name, lang)
}

pub open spec fn spec_weapon_row(lang: LocaleLang, c: CharacterView, w: WeaponView) -> Seq<Seq<char>> {
    seq![
        w.name,
        w.attacks_query,
        spec_weapon_dmg_cell(lang, w, c.build),
        spec_join(w.range_dmgs.map_values(|r: (Option<i32>, Seq<char>)| spec_range_cell(r)), "/"@),
        spec_opt_int_cell(w.malfunction),
        spec_ammo_cell(w.ammo),
        spec_weapon_skill_cell(lang, c.skills, w),
    ]
}

pub open spec fn spec_weapon_header(lang: LocaleLang) -> Seq<Seq<char>> {
    seq![
        spec_uppercase_first_letter(spec_tag_text(lang, LocaleTag::Weapon)),
        spec_tag_text(lang, LocaleTag::Attacks),
        spec_tag_text(lang, LocaleTag::Damage),
        spec_tag_text(lang, LocaleTag::Range),
        spec_tag_text(lang, LocaleTag::Malfunction),
        spec_tag_text(lang, LocaleTag::Ammo),
        spec_tag_text(lang, LocaleTag::Skill),
    ]
}

/// The weapons of a sheet as text: a table of them by name.
pub open spec fn spec_weapons_text(lang: LocaleLang, c: CharacterView) -> Seq<char> {
    let sorted = spec_sort_by(c.weapons, spec_weapon_lt());
    spec_tag_text(lang, LocaleTag::Weapons) + "\n"@ + "```text\n"@ + (if sorted.len() == 0 {
        "("@ + spec_tag_text(lang, LocaleTag::NoItems) + ")\n"@
    } else {
        spec_table_text(
            seq![spec_weapon_header(lang)] + sorted.map_values(|w: WeaponView| spec_weapon_row(lang, c, w)),
            Seq::empty(),
            Seq::empty(),
        )
    }) + "```"@
}

/// Every weapon's skill is on the sheet, and where a weapon adds the damage
/// bonus the build has one that can be written.
pub open spec fn spec_weapons_listable(c: CharacterView) -> bool {
    forall|i: int| 0 <= i < c.weapons.len() ==> {
        &&& spec_find_skill(c.skills, SkillMatch::Name, (#[trigger] c.weapons[i]).skill) is Some
        &&& c.weapons[i].apply_damage_modifier ==> c.build != i32::MIN
    }
}

proof fn lemma_sorted_weapon_listable(c: CharacterView, i: int)
    requires
        spec_weapons_listable(c),
        0 <= i < c.weapons.len(),
    ensures
        spec_find_skill(c.skills, SkillMatch::Name, spec_sort_by(c.weapons, spec_weapon_lt())[i].skill) is Some,
        spec_sort_by(c.weapons, spec_weapon_lt())[i].apply_damage_modifier ==> c.build != i32::MIN,
        spec_sort_by(c.weapons, spec_weapon_lt()).len() == c.weapons.len(),
{
    lemma_sort_by_elems(c.weapons, spec_weapon_lt());
    let e = spec_sort_by(c.weapons, spec_weapon_lt())[i];
    assert(c.weapons.contains(e));
    let j = choose|j: int| 0 <= j < c.weapons.len() && c.weapons[j] == e;
    assert(spec_find_skill(c.skills, SkillMatch::Name, c.weapons[j].skill) is Some);
}

fn sorted_weapons(weapons: &Vec<Weapon>) -> (r: Vec<Weapon>)
    ensures
        spec_weapon_views(r@) == spec_sort_by(spec_weapon_views(weapons@), spec_weapon_lt()),
{
    let ghost input = spec_weapon_views(weapons@);
    let ghost lt = spec_weapon_lt();
    let mut out: Vec<Weapon> = Vec::new();
    let mut i: usize = 0;
    assert(input.take(0) =~= Seq::<WeaponView>::empty());
    assert(spec_weapon_views(out@) =~= spec_sort_by(input.take(0), lt));
    while i < weapons.len()
        invariant
            input == spec_weapon_views(weapons@),
            lt == spec_weapon_lt(),
            i <= weapons@.len(),
            spec_weapon_views(out@) == spec_sort_by(input.take(i as int), lt),
        decreases weapons@.len() - i,
    {
        let x = weapons[i].clone();
        let ghost before = spec_weapon_views(out@);
        let mut p: usize = out.len();
        while p > 0 && str_order(x.name.as_str(), out[p - 1].name.as_str()) < 0
            invariant
                p <= out@.len(),
                before == spec_weapon_views(out@),
                lt == spec_weapon_lt(),
                forall|k: int| p <= k < before.len() ==> lt(x@, #[trigger] before[k]),
            decreases p,
        {
            p = p - 1;
        }
        proof {
            lemma_insert_sorted_at(before, x@, lt, p as int);
            lemma_sort_step(input, lt, i as int);
        }
        let ghost xv = x@;
        out.insert(p, x);
        assert(spec_weapon_views(out@) =~= before.insert(p as int, xv));
        i += 1;
    }
    assert(input.take(weapons@.len() as int) =~= input);
    out
}

fn push_optional(s: &mut String, on: bool, text: &str)
    ensures
        final(s)@ == old(s)@ + (if on { text@ } else { Seq::<char>::empty() }),
{
    if on {
        s.append(text);
    }
}

fn weapon_damage_text(lang: LocaleLang, w: &Weapon) -> (r: String)
    ensures
        r@ == spec_weapon_damage_text(lang, w@),
{
    let ghost parts = w@.range_dmgs.map_values(|r: (Option<i32>, Seq<char>)| r.1);
    let mut j = String::new();
    let mut i: usize = 0;
    assert(parts.take(0) =~= Seq::<Seq<char>>::empty());
    while i < w.range_dmgs.len()
        invariant
            parts == w@.range_dmgs.map_values(|r: (Option<i32>, Seq<char>)| r.1),
            parts.len() == w.range_dmgs@.len(),
            i <= w.range_dmgs@.len(),
            j@ == spec_join(parts.take(i as int), "/"@),
        decreases w.range_dmgs@.len() - i,
    {
        let ghost prev = j@;
        if i > 0 {
            j.append("/");
        }
        j.append(w.range_dmgs[i].damage.as_str());
        proof {
            let t = parts.take(i as int + 1);
            assert(t.drop_last() =~= parts.take(i as int));
            assert(t.last() == w.range_dmgs@[i as int].damage@);
            if i == 0 {
                assert(parts.take(0) =~= Seq::<Seq<char>>::empty());
                assert(j@ =~= t[0]);
            } else {
                assert(j@ =~= spec_join(t.drop_last(), "/"@) + "/"@ + t.last());
            }
        }
        i += 1;
    }
    assert(parts.take(w.range_dmgs@.len() as int) =~= parts);
    match lang {
        LocaleLang::English => replace_char(j.as_str(), 'k', "d"),
        LocaleLang::Polski => replace_char(j.as_str(), 'd', "k"),
    }
}

fn ranges_text(w: &Weapon) -> (r: String)
    ensures
        r@ == spec_join(w@.range_dmgs.map_values(|r: (Option<i32>, Seq<char>)| spec_range_cell(r)), "/"@),
{
    let ghost parts = w@.range_dmgs.map_values(|r: (Option<i32>, Seq<char>)| spec_range_cell(r));
    let mut j = String::new();
    let mut i: usize = 0;
    assert(parts.take(0) =~= Seq::<Seq<char>>::empty());
    while i < w.range_dmgs.len()
        invariant
            parts == w@.range_dmgs.map_values(|r: (Option<i32>, Seq<char>)| spec_range_cell(r)),
            parts.len() == w.range_dmgs@.len(),
            i <= w.range_dmgs@.len(),
            j@ == spec_join(parts.take(i as int), "/"@),
        decreases w.range_dmgs@.len() - i,
    {
        if i > 0 {
            j.append("/");
        }
        let ghost mid = j@;
        match w.range_dmgs[i].range {
            Some(x) => {
                push_int(&mut j, x as i64);
                j.append(" m");
            },
            None => {
                j.append("-");
            },
        }
        proof {
            let t = parts.take(i as int + 1);
            assert(t.drop_last() =~= parts.take(i as int));
            assert(t.last() == spec_range_cell(w@.range_dmgs[i as int]));
            assert(j@ =~= mid + spec_range_cell(w@.range_dmgs[i as int]));
            if i == 0 {
                assert(parts.take(0) =~= Seq::<Seq<char>>::empty());
                assert(j@ =~= t[0]);
            } else {
                assert(j@ =~= spec_join(t.drop_last(), "/"@) + "/"@ + t.last());
            }
        }
        i += 1;
    }
    assert(parts.take(w.range_dmgs@.len() as int) =~= parts);
    j
}

fn weapon_row(lang: LocaleLang, c: &Character, w: &Weapon) -> (r: Vec<String>)
    requires
        spec_find_skill(c@.skills, SkillMatch::Name, w@.skill) is Some,
        w.apply_damage_modifier ==> c.build != i32::MIN,
    ensures
        r@.map_values(|x: String| x@) == spec_weapon_row(lang, c@, w@),
{
    let mut dmg = weapon_damage_text(lang, w);
    if w.apply_damage_modifier && c.build != 0 {
        let ghost base = dmg@;
        dmg.append("+");
        push_optional(&mut dmg, w.half_damage_modifier, "½");
        let db = locale_text_by_tag_lang(lang, LocaleTag::Db);
        dmg.append(db.as_str());
        dmg.append(" (");
        let dm = c.damage_modifier(lang);
        dmg.append(dm.as_str());
        push_optional(&mut dmg, w.half_damage_modifier, "x½");
        dmg.append(")");
        assert(dmg@ =~= spec_weapon_dmg_cell(lang, w@, c.build));
    } else {
        assert(dmg@ =~= spec_weapon_dmg_cell(lang, w@, c.build));
    }
    let malfunction = match w.malfunction {
        Some(n) => int_to_string(n as i64),
        None => String::from_str("-"),
    };
    let ammo = match w.ammo {
        Some(a) => {
            let mut s = int_to_string(a.clip_rounds as i64);
            s.append("/");
            push_int(&mut s, a.clip_size as i64);
            s.append(" [");
            push_int(&mut s, a.loose_rounds as i64);
            s.append("]");
            assert(s@ =~= spec_ammo_cell(w.ammo));
            s
        },
        None => String::from_str("-"),
    };
    let k = match find_skill(&c.skills, SkillMatch::Name, w.skill.as_str()) {
        Some(i) => i,
        None => 0,
    };
    proof { lemma_first_index(c@.skills, spec_skill_matches(SkillMatch::Name, w@.skill)); }
    let skill = &c.skills[k];
    let mut sk = int_to_string(skill.value as i64);
    sk.append(" ");
    let name = skill.name.get(lang);
    sk.append(name.as_str());
    let r = vec![w.name.clone(), w.attacks_query.clone(), dmg, ranges_text(w), malfunction, ammo, sk];
    assert(r@.map_values(|x: String| x@) =~= spec_weapon_row(lang, c@, w@));
    r
}

fn weapons_text(lang: LocaleLang, c: &Character) -> (r: String)
    requires
        spec_weapons_listable(c@),
    ensures
        r@ == spec_weapons_text(lang, c@),
{
    let sorted = sorted_weapons(&c.weapons);
    let ghost sv = spec_weapon_views(sorted@);
    proof { lemma_sort_by_elems(c@.weapons, spec_weapon_lt()); }
    let mut out = locale_text_by_tag_lang(lang, LocaleTag::Weapons);
    out.append("\n");
    out.append("```text\n");
    if sorted.len() == 0 {
        out.append("(");
        let t = locale_text_by_tag_lang(lang, LocaleTag::NoItems);
        out.append(t.as_str());
        out.append(")\n");
    } else {
        let header = vec![
            to_uppercase_first_letter(locale_text_by_tag_lang(lang, LocaleTag::Weapon).as_str()),
            locale_text_by_tag_lang(lang, LocaleTag::Attacks),
            locale_text_by_tag_lang(lang, LocaleTag::Damage),
            locale_text_by_tag_lang(lang, LocaleTag::Range),
            locale_text_by_tag_lang(lang, LocaleTag::Malfunction),
            locale_text_by_tag_lang(lang, LocaleTag::Ammo),
            locale_text_by_tag_lang(lang, LocaleTag::Skill),
        ];
        assert(header@.map_values(|x: String| x@) =~= spec_weapon_header(lang));
        let mut records: Vec<Vec<String>> = vec![header];
        let ghost want = seq![spec_weapon_header(lang)] + sv.map_values(|w: WeaponView| spec_weapon_row(lang, c@, w));
        assert(spec_records_view(records@) =~= want.take(1));
        let mut i: usize = 0;
        while i < sorted.len()
            invariant
                sv == spec_weapon_views(sorted@),
                sv == spec_sort_by(c@.weapons, spec_weapon_lt()),
                sorted@.len() == c@.weapons.len(),
                spec_weapons_listable(c@),
                want == seq![spec_weapon_header(lang)] + sv.map_values(|w: WeaponView| spec_weapon_row(lang, c@, w)),
                i <= sorted@.len(),
                spec_records_view(records@) == want.take(i as int + 1),
            decreases sorted@.len() - i,
        {
            proof { lemma_sorted_weapon_listable(c@, i as int); }
            let row = weapon_row(lang, c, &sorted[i]);
            let ghost before = spec_records_view(records@);
            let ghost rv = row@;
            records.push(row);
            assert(spec_records_view(records@) =~= before.push(rv.map_values(|x: String| x@)));
            assert(spec_records_view(records@) =~= want.take(i as int + 2));
            i += 1;
        }
        assert(want.take(sorted@.len() as int + 1) =~= want);
        let no_columns: Vec<usize> = Vec::new();
        let t = render_table(records, no_columns.clone(), no_columns);
        out.append(t.as_str());
    }
    out.append("```");
    out
}

impl MessageContent {
    /// The weapons of a character as a message.
    pub fn from_character_to_weapons(lang: LocaleLang, character: &Character) -> (r: Self)
        requires
            spec_weapons_listable(character@),
        ensures
            r@ == spec_description_only(spec_weapons_text(lang, character@)),
    {
        let d = weapons_text(lang, character);
        MessageContent { title: String::new(), description: d, footer: String::new(), colour: None }
    }

    /// The items of a character as a message.
    pub fn from_character_to_items(lang: LocaleLang, character: &Character) -> (r: Self)
        ensures
            r@ == spec_description_only(spec_items_text(lang, character@.items, "```"@)),
    {
        let d = items_text(lang, &character.items, "```");
        assert(spec_item_views(character.items@) =~= character@.items);
        MessageContent { title: String::new(), description: d, footer: String::new(), colour: None }
    }

    /// The weapons, then the items, of a character as one message.
    pub fn from_character_to_equipment(lang: LocaleLang, character: &Character) -> (r: Self)
        requires
            spec_weapons_listable(character@),
        ensures
            r@ == spec_description_only(spec_weapons_text(lang, character@) + "\n"@
                + spec_items_text(lang, character@.items, "```"@)),
    {
        let mc_weapons = Self::from_character_to_weapons(lang, character);
        let mc_items = Self::from_character_to_items(lang, character);
        let mut d = mc_weapons.description;
        d.append("\n");
        d.append(mc_items.description.as_str());
        MessageContent { title: String::new(), description: d, footer: String::new(), colour: None }
    }
}

/// The text of the English name of dodging, by which the sheet finds its value.
pub open spec fn spec_dodge_name() -> Seq<char> {
    spec_tag_text(LocaleLang::English, LocaleTag::Dodge)
}

/// The table of characteristics and derived values of a sheet.
pub open spec fn spec_attribute_rows(lang: LocaleLang, c: CharacterView) -> Seq<Seq<Seq<char>>> {
    let a = c.attributes;
    let dodge = c.skills[spec_find_skill(c.skills, SkillMatch::Name, spec_dodge_name())->0];
    seq![
        seq![spec_tag_text(lang, LocaleTag::Str), spec_int_str(a[0].1 as int), spec_tag_text(lang, LocaleTag::Dex),
            spec_int_str(a[3].1 as int), spec_tag_text(lang, LocaleTag::Pow), spec_int_str(a[6].1 as int)],
        seq![spec_tag_text(lang, LocaleTag::Con), spec_int_str(a[1].1 as int), spec_tag_text(lang, LocaleTag::App),
            spec_int_str(a[4].1 as int), spec_tag_text(lang, LocaleTag::Edu), spec_int_str(a[7].1 as int)],
        seq![spec_tag_text(lang, LocaleTag::Siz), spec_int_str(a[2].1 as int), spec_tag_text(lang, LocaleTag::Int),
            spec_int_str(a[5].1 as int), spec_tag_text(lang, LocaleTag::Move), spec_int_str(c.move_rate as int)],
        seq![spec_tag_text(lang, LocaleTag::Db), spec_localised_dice(spec_damage_bonus(c.build as int), lang),
            spec_tag_text(lang, LocaleTag::Build), spec_int_str(c.build as int), spec_tag_text(lang, LocaleTag::Dodge),
            spec_int_str(dodge.value as int)],
    ]
}

/// The pulp talents, each in bold, separated by commas.
pub open spec fn spec_talents_text(lang: LocaleLang, talents: Seq<(Seq<char>, Seq<char>)>) -> Seq<char> {
    spec_join(talents.map_values(|t: (Seq<char>, Seq<char>)| "**"@ + spec_text(t, lang) + "**"@), ", "@)
}

/// The first message of a sheet: the name and status, the pulp archetype
/// and talents, and the table of characteristics, its even columns aligned
/// left and its odd ones right.
pub open spec fn spec_attributes_text(lang: LocaleLang, c: CharacterView) -> Seq<char> {
    "**"@ + c.name + "**"@ + "\t"@ + spec_status_joined(c, "\t"@) + "\n"@
        + (match c.pulp_archetype {
            Some(a) => spec_tag_text(lang, LocaleTag::PulpArchetype) + ": **"@ + spec_text(a, lang) + "**\n"@,
            None => Seq::<char>::empty(),
        })
        + (if c.pulp_talents.len() > 0 {
            spec_tag_text(lang, LocaleTag::PulpTalents) + ": "@ + spec_talents_text(lang, c.pulp_talents) + "\n"@
        } else {
            Seq::<char>::empty()
        })
        + "```text\n"@ + spec_table_text(spec_attribute_rows(lang, c), seq![0usize, 2usize, 4usize], seq![1usize, 3usize, 5usize])
        + "```\n"@
}

/// The sheet has a dodge skill and a damage bonus that can be written.
pub open spec fn spec_attributes_listable(c: CharacterView) -> bool {
    &&& c.build != i32::MIN
    &&& spec_find_skill(c.skills, SkillMatch::Name, spec_dodge_name()) is Some
}

fn talents_text(lang: LocaleLang, talents: &Vec<LocaleEntry>) -> (r: String)
    ensures
        r@ == spec_talents_text(lang, talents@.map_values(|e: LocaleEntry| e@)),
{
    let ghost parts = talents@.map_values(|e: LocaleEntry| e@).map_values(
        |t: (Seq<char>, Seq<char>)| "**"@ + spec_text(t, lang) + "**"@);
    let mut j = String::new();
    let mut i: usize = 0;
    assert(parts.take(0) =~= Seq::<Seq<char>>::empty());
    while i < talents.len()
        invariant
            parts == talents@.map_values(|e: LocaleEntry| e@).map_values(
                |t: (Seq<char>, Seq<char>)| "**"@ + spec_text(t, lang) + "**"@),
            parts.len() == talents@.len(),
            i <= talents@.len(),
            j@ == spec_join(parts.take(i as int), ", "@),
        decreases talents@.len() - i,
    {
        if i > 0 {
            j.append(", ");
        }
        let ghost mid = j@;
        j.append("**");
        let t = talents[i].get(lang);
        j.append(t.as_str());
        j.append("**");
        proof {
            let tk = parts.take(i as int + 1);
            assert(tk.drop_last() =~= parts.take(i as int));
            assert(tk.last() == parts[i as int]);
            assert(j@ =~= mid + parts[i as int]);
            if i == 0 {
                assert(parts.take(0) =~= Seq::<Seq<char>>::empty());
                assert(j@ =~= tk[0]);
            } else {
                assert(j@ =~= spec_join(tk.drop_last(), ", "@) + ", "@ + tk.last());
            }
        }
        i += 1;
    }
    assert(parts.take(talents@.len() as int) =~= parts);
    j
}

fn attribute_rows(lang: LocaleLang, c: &Character) -> (r: Vec<Vec<String>>)
    requires
        spec_attributes_listable(c@),
    ensures
        spec_records_view(r@) == spec_attribute_rows(lang, c@),
{
    let a = &c.attributes;
    let dodge_name = locale_text_by_tag_lang(LocaleLang::English, LocaleTag::Dodge);
    let k = match find_skill(&c.skills, SkillMatch::Name, dodge_name.as_str()) {
        Some(i) => i,
        None => 0,
    };
    proof { lemma_first_index(c@.skills, spec_skill_matches(SkillMatch::Name, spec_dodge_name())); }
    let dodge = c.skills[k].value;
    let r1 = vec![
        locale_text_by_tag_lang(lang, LocaleTag::Str), int_to_string(a.strength.value as i64),
        locale_text_by_tag_lang(lang, LocaleTag::Dex), int_to_string(a.dexterity.value as i64),
        locale_text_by_tag_lang(lang, LocaleTag::Pow), int_to_string(a.power.value as i64),
    ];
    let r2 = vec![
        locale_text_by_tag_lang(lang, LocaleTag::Con), int_to_string(a.constitution.value as i64),
        locale_text_by_tag_lang(lang, LocaleTag::App), int_to_string(a.appearance.value as i64),
        locale_text_by_tag_lang(lang, LocaleTag::Edu), int_to_string(a.education.value as i64),
    ];
    let r3 = vec![
        locale_text_by_tag_lang(lang, LocaleTag::Siz), int_to_string(a.size.value as i64),
        locale_text_by_tag_lang(lang, LocaleTag::Int), int_to_string(a.intelligence.value as i64),
        locale_text_by_tag_lang(lang, LocaleTag::Move), int_to_string(c.move_rate as i64),
    ];
    let r4 = vec![
        locale_text_by_tag_lang(lang, LocaleTag::Db), c.damage_modifier(lang),
        locale_text_by_tag_lang(lang, LocaleTag::Build), int_to_string(c.build as i64),
        locale_text_by_tag_lang(lang, LocaleTag::Dodge), int_to_string(dodge as i64),
    ];
    let ghost want = spec_attribute_rows(lang, c@);
    assert(r1@.map_values(|x: String| x@) =~= want[0]);
    assert(r2@.map_values(|x: String| x@) =~= want[1]);
    assert(r3@.map_values(|x: String| x@) =~= want[2]);
    assert(r4@.map_values(|x: String| x@) =~= want[3]);
    let r = vec![r1, r2, r3, r4];
    assert(spec_records_view(r@) =~= want);
    r
}

fn attributes_text(lang: LocaleLang, c: &Character) -> (r: String)
    requires
        spec_attributes_listable(c@),
    ensures
        r@ == spec_attributes_text(lang, c@),
{
    let mut out = String::from_str("**");
    out.append(c.name.as_str());
    out.append("**");
    out.append("\t");
    let status = c.status_one_line();
    out.append(status.as_str());
    out.append("\n");
    let ghost head = out@;
    match &c.pulp_archetype {
        Some(archetype) => {
            let t = locale_text_by_tag_lang(lang, LocaleTag::PulpArchetype);
            out.append(t.as_str());
            out.append(": **");
            let at = archetype.get(lang);
            out.append(at.as_str());
            out.append("**\n");
        },
        None => {},
    }
    let ghost with_archetype = out@;
    assert(with_archetype =~= head + (match c@.pulp_archetype {
        Some(a) => spec_tag_text(lang, LocaleTag::PulpArchetype) + ": **"@ + spec_text(a, lang) + "**\n"@,
        None => Seq::<char>::empty(),
    }));
    if c.pulp_talents.len() > 0 {
        let t = locale_text_by_tag_lang(lang, LocaleTag::PulpTalents);
        out.append(t.as_str());
        out.append(": ");
        let tt = talents_text(lang, &c.pulp_talents);
        out.append(tt.as_str());
        out.append("\n");
    }
    let ghost with_talents = out@;
    assert(with_talents =~= with_archetype + (if c@.pulp_talents.len() > 0 {
        spec_tag_text(lang, LocaleTag::PulpTalents) + ": "@ + spec_talents_text(lang, c@.pulp_talents) + "\n"@
    } else {
        Seq::<char>::empty()
    }));
    out.append("```text\n");
    let records = attribute_rows(lang, c);
    let left = vec![0usize, 2usize, 4usize];
    let right = vec![1usize, 3usize, 5usize];
    assert(left@ =~= seq![0usize, 2usize, 4usize]);
    assert(right@ =~= seq![1usize, 3usize, 5usize]);
    let t = render_table(records, left, right);
    out.append(t.as_str());
    out.append("```\n");
    assert(out@ =~= spec_attributes_text(lang, c@));
    out
}

/// The messages of a whole sheet.
pub open spec fn spec_sheet_messages(lang: LocaleLang, c: CharacterView) -> Seq<MessageView> {
    seq![spec_description_only(spec_attributes_text(lang, c))] + spec_skill_messages(lang, c.skills) + seq![
        spec_description_only(spec_weapons_text(lang, c) + "\n"@ + spec_items_text(lang, c.items, "```"@)),
    ]
}

impl MessageContent {
    /// The characteristics of a character as a message.
    pub fn from_character_to_attributes(lang: LocaleLang, character: &Character) -> (r: Self)
        requires
            spec_attributes_listable(character@),
        ensures
            r@ == spec_description_only(spec_attributes_text(lang, character@)),
    {
        let d = attributes_text(lang, character);
        MessageContent { title: String::new(), description: d, footer: String::new(), colour: None }
    }

    /// The skills of a character as messages of 48 skills or fewer.
    pub fn from_character_skills(lang: LocaleLang, character_skills: &Vec<Skill>) -> (r: Vec<Self>)
        ensures
            r@.map_values(|m: MessageContent| m@) == spec_skill_messages(lang, spec_skill_views(character_skills@)),
    {
        skill_messages(lang, character_skills)
    }

    /// A whole sheet: characteristics, skills, then equipment.
    #[verifier::rlimit(40)]
    #[verifier::spinoff_prover]
    pub fn from_character_to_sheet(lang: LocaleLang, character: &Character) -> (r: Vec<Self>)
        requires
            spec_attributes_listable(character@),
            spec_weapons_listable(character@),
        ensures
            r@.map_values(|m: MessageContent| m@) == spec_sheet_messages(lang, character@),
    {
        let attrs = Self::from_character_to_attributes(lang, character);
        let ghost av = attrs@;
        let mut mcs = vec![attrs];
        let skills = Self::from_character_skills(lang, &character.skills);
        let ghost first = mcs@.map_values(|m: MessageContent| m@);
        assert(first =~= seq![av]);
        let ghost sk = skills@.map_values(|m: MessageContent| m@);
        let mut i: usize = 0;
        while i < skills.len()
            invariant
                i <= skills@.len(),
                sk == skills@.map_values(|m: MessageContent| m@),
                first.len() == 1,
                mcs@.map_values(|m: MessageContent| m@) == first + sk.take(i as int),
            decreases skills@.len() - i,
        {
            let m = skills[i].clone();
            let ghost before = mcs@.map_values(|m: MessageContent| m@);
            mcs.push(m);
            assert(mcs@.map_values(|m: MessageContent| m@) =~= before.push(sk[i as int]));
            assert(sk.take(i as int + 1) =~= sk.take(i as int).push(sk[i as int]));
            i += 1;
        }
        assert(sk.take(skills@.len() as int) =~= sk);
        let eq = Self::from_character_to_equipment(lang, character);
        let ghost ev = eq@;
        let ghost before = mcs@.map_values(|m: MessageContent| m@);
        mcs.push(eq);
        assert(mcs@.map_values(|m: MessageContent| m@) =~= before.push(ev));
        assert(character@.skills == spec_skill_views(character.skills@));
        assert(sk == spec_skill_messages(lang, character@.skills));
        assert(before.push(ev) =~= seq![av] + sk + seq![ev]);
        assert(mcs@.map_values(|m: MessageContent| m@) =~= spec_sheet_messages(lang, character@));
        mcs
    }
}

/// Why a sheet could not be written out.
#[derive(Debug, Clone, Copy, PartialEq, Eq, Structural)]
pub enum SheetError {
    /// The sheet has no dodge skill.
    NoDodge,
    /// A weapon names a skill that the sheet does not have.
    NoWeaponSkill,
}

impl SheetError {
    pub fn to_string(&self) -> (r: String)
        ensures
            r@ == (match self {
                SheetError::NoDodge => "No such skill: Dodge"@,
                SheetError::NoWeaponSkill => "No such skill"@,
            }),
    {
        match self {
            SheetError::NoDodge => String::from_str("No such skill: Dodge"),
            SheetError::NoWeaponSkill => String::from_str("No such skill"),
        }
    }
}

/// All the skills of a sheet in one table of two columns, in order.
pub open spec fn spec_skills_text(lang: LocaleLang, skills: Seq<SkillView>) -> Seq<char> {
    "```text\n"@ + spec_table_text(spec_skill_table_rows(spec_skill_rows(lang, skills)), seq![1usize, 4usize], seq![2usize, 5usize])
        + "```\n"@
}

/// All the skills of a sheet in one table.
pub fn skills_text(lang: LocaleLang, skills: &Vec<Skill>) -> (r: String)
    ensures
        r@ == spec_skills_text(lang, spec_skill_views(skills@)),
{
    let rows = sorted_skill_rows(lang, skills);
    let records = skill_table_rows(rows.as_slice());
    let left = vec![1usize, 4usize];
    let right = vec![2usize, 5usize];
    assert(left@ =~= seq![1usize, 4usize]);
    assert(right@ =~= seq![2usize, 5usize]);
    let mut d = String::from_str("```text\n");
    let t = render_table(records, left, right);
    d.append(t.as_str());
    d.append("```\n");
    d
}

/// Some weapon of the sheet names a skill that the sheet does not have.
pub open spec fn spec_weapon_skill_missing(c: CharacterView) -> bool {
    exists|i: int| 0 <= i < c.weapons.len()
        && spec_find_skill(c.skills, SkillMatch::Name, (#[trigger] c.weapons[i]).skill) is None
}

/// Whether every weapon of the sheet names a skill that the sheet has.
fn weapon_skills_found(character: &Character) -> (r: bool)
    ensures
        r == !spec_weapon_skill_missing(character@),
{
    let mut i: usize = 0;
    while i < character.weapons.len()
        invariant
            i <= character.weapons@.len(),
            forall|k: int| 0 <= k < i ==> spec_find_skill(character@.skills, SkillMatch::Name, (#[trigger] character@.weapons[k]).skill) is Some,
        decreases character.weapons@.len() - i,
    {
        assert(character@.weapons[i as int] == character.weapons@[i as int]@);
        if find_skill(&character.skills, SkillMatch::Name, character.weapons[i].skill.as_str()).is_none() {
            assert(spec_find_skill(character@.skills, SkillMatch::Name, character@.weapons[i as int].skill) is None);
            return false;
        }
        i += 1;
    }
    true
}

/// The three texts of a whole sheet: the characteristics, all the skills,
/// and the equipment. Refused when the sheet has no dodge skill, and
/// otherwise when a weapon names a skill that the sheet does not have.
pub fn format_sheet(character: &Character, lang: LocaleLang) -> (r: Result<Vec<String>, SheetError>)
    requires
        character@.build != i32::MIN,
    ensures
        spec_find_skill(character@.skills, SkillMatch::Name, spec_dodge_name()) is None
            ==> r == Err::<Vec<String>, SheetError>(SheetError::NoDodge),
        spec_find_skill(character@.skills, SkillMatch::Name, spec_dodge_name()) is Some
            && spec_weapon_skill_missing(character@) ==> r == Err::<Vec<String>, SheetError>(SheetError::NoWeaponSkill),
        spec_find_skill(character@.skills, SkillMatch::Name, spec_dodge_name()) is Some
            && !spec_weapon_skill_missing(character@) ==> (r matches Ok(v) && v@.map_values(|s: String| s@) == seq![
                spec_attributes_text(lang, character@),
                spec_skills_text(lang, character@.skills),
                spec_weapons_text(lang, character@) + "\n"@ + spec_items_text(lang, character@.items, "```"@),
            ]),
{
    let dodge_name = locale_text_by_tag_lang(LocaleLang::English, LocaleTag::Dodge);
    if find_skill(&character.skills, SkillMatch::Name, dodge_name.as_str()).is_none() {
        return Err(SheetError::NoDodge);
    }
    if !weapon_skills_found(character) {
        return Err(SheetError::NoWeaponSkill);
    }
    assert(spec_weapons_listable(character@));
    let a = attributes_text(lang, character);
    let sk = skills_text(lang, &character.skills);
    let eq = format_equipment(character, lang);
    let ghost (av, sv, ev) = (a@, sk@, eq@);
    let v = vec![a, sk, eq];
    assert(v@.map_values(|s: String| s@) =~= seq![av, sv, ev]);
    Ok(v)
}

/// The text of the equipment of a sheet: weapons, then items.
pub fn format_equipment(character: &Character, lang: LocaleLang) -> (r: String)
    requires
        spec_weapons_listable(character@),
    ensures
        r@ == spec_weapons_text(lang, character@) + "\n"@ + spec_items_text(lang, character@.items, "```"@),
{
    MessageContent::from_character_to_equipment(lang, character).description
}

/// A table of the status of several characters.
pub open spec fn spec_status_rows(lang: LocaleLang, cs: Seq<CharacterView>) -> Seq<Seq<Seq<char>>> {
    seq![seq![spec_tag_text(lang, LocaleTag::Name), "❤️"@, "🧠"@, "🍀"@, "🪄"@, spec_tag_text(lang, LocaleTag::Dex)]]
        + cs.map_values(|c: CharacterView| seq![
            c.name,
            spec_status_hp_raw(c),
            spec_status_sanity_raw(c),
            spec_int_str(c.luck.current as int),
            spec_status_magic_raw(c),
            spec_int_str(c.attributes[3].1 as int),
        ])
}

impl MessageContent {
    /// The status of several characters as one table.
    pub fn from_characters_to_status(lang: LocaleLang, characters: &Vec<Character>) -> (r: Self)
        ensures
            r@ == spec_description_only("```text\n"@ + spec_table_text(
                spec_status_rows(lang, characters@.map_values(|c: Character| c@)), Seq::empty(), Seq::empty()) + "```"@),
    {
        let ghost want = spec_status_rows(lang, characters@.map_values(|c: Character| c@));
        let header = vec![
            locale_text_by_tag_lang(lang, LocaleTag::Name),
            String::from_str("❤️"),
            String::from_str("🧠"),
            String::from_str("🍀"),
            String::from_str("🪄"),
            locale_text_by_tag_lang(lang, LocaleTag::Dex),
        ];
        assert(header@.map_values(|x: String| x@) =~= want[0]);
        let mut records: Vec<Vec<String>> = vec![header];
        assert(spec_records_view(records@) =~= want.take(1));
        let mut i: usize = 0;
        while i < characters.len()
            invariant
                want == spec_status_rows(lang, characters@.map_values(|c: Character| c@)),
                i <= characters@.len(),
                spec_records_view(records@) == want.take(i as int + 1),
            decreases characters@.len() - i,
        {
            let c = &characters[i];
            let row = vec![
                c.name.clone(),
                c.status_hp_raw(),
                c.status_sanity_raw(),
                c.status_luck_raw(),
                c.status_magic_raw(),
                int_to_string(c.attributes.dexterity.value as i64),
            ];
            let ghost before = spec_records_view(records@);
            let ghost rv = row@;
            records.push(row);
            let ghost cs = characters@.map_values(|c: Character| c@);
            assert(cs[i as int] == c@);
            assert(want[i as int + 1] == seq![
                c@.name,
                spec_status_hp_raw(c@),
                spec_status_sanity_raw(c@),
                spec_int_str(c@.luck.current as int),
                spec_status_magic_raw(c@),
                spec_int_str(c@.attributes[3].1 as int),
            ]);
            assert(rv.map_values(|x: String| x@) =~= want[i as int + 1]);
            assert(spec_records_view(records@) =~= before.push(want[i as int + 1]));
            assert(spec_records_view(records@) =~= want.take(i as int + 2));
            i += 1;
        }
        assert(want.take(characters@.len() as int + 1) =~= want);
        let no_columns: Vec<usize> = Vec::new();
        let t = render_table(records, no_columns.clone(), no_columns);
        let mut d = String::from_str("```text\n");
        d.append(t.as_str());
        d.append("```");
        MessageContent { title: String::new(), description: d, footer: String::new(), colour: None }
    }
}

} // verus!
