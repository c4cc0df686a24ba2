//! Messages of fights and of rolled characteristics: tables drawn by `tabled`.
use crate::locale::{locale_text_by_tag_lang, LocaleLang, LocaleTag};
use crate::message::{spec_tag_text, MessageContent, MessageView};
use crate::roller::attribute_roll::{
    spec_clamped_result, spec_points, spec_points_fit, spec_roll_map_views, AttributeRollResult,
};
use crate::roller::battle::{spec_views, Battle, CharacterInitiative, InitiativeView};
use crate::roller::roll::{RollResult, RollResultView};
use crate::roller::success_level::{spec_level_hex, spec_level_tag, SuccessLevel};
use crate::sheet::spec_join;
use crate::table::{render_table, spec_records_view, spec_table_text};
use crate::text::{int_to_string, nat_to_string, push_int, spec_int_str};
use crate::utils::{lemma_insert_sorted_at, lemma_sort_step, spec_sort_by};
use vstd::prelude::*;

verus! {

/// What the initiative table notes after a fighter's level: a critical
/// success gives a bonus die, a critical failure loses the first round.
pub open spec fn spec_initiative_note(lang: LocaleLang, l: SuccessLevel) -> Seq<char> {
    match l {
        SuccessLevel::CriticalSuccess => "\n^ "@ + spec_tag_text(lang, LocaleTag::BonusDieToFirstAction),
        SuccessLevel::CriticalFailure => "\n^ "@ + spec_tag_text(lang, LocaleTag::LosesFirstRound),
        _ => Seq::<char>::empty(),
    }
}

/// The header of the initiative table.
pub open spec fn spec_battle_header(lang: LocaleLang, hide_details: bool) -> Seq<Seq<char>> {
    seq![Seq::<char>::empty(), "#"@, spec_tag_text(lang, LocaleTag::Name), spec_tag_text(lang, LocaleTag::Result)]
        + (if hide_details {
            Seq::<Seq<char>>::empty()
        } else {
            seq![spec_tag_text(lang, LocaleTag::Dex), spec_tag_text(lang, LocaleTag::Rolls)]
        })
}

/// The row of the `i`-th fighter.
pub open spec fn spec_battle_row(lang: LocaleLang, b: Seq<InitiativeView>, current: int, i: int, hide_details: bool) -> Seq<Seq<char>> {
    let c = b[i];
    seq![
        if current == i { "➡️"@ } else { Seq::<char>::empty() },
        spec_int_str(i + 1),
        c.name,
        spec_tag_text(lang, spec_level_tag(c.croll_result.success_level)) + spec_initiative_note(lang, c.croll_result.success_level),
    ] + (if hide_details {
        Seq::<Seq<char>>::empty()
    } else {
        seq![spec_int_str(c.croll_result.threshold as int), spec_int_str(c.croll_result.result as int)]
    })
}

/// The message of a fight: the fighter whose turn it is, then the table
/// of fighters in initiative order.
pub open spec fn spec_battle_message(lang: LocaleLang, b: Seq<InitiativeView>, current: int, hide_details: bool) -> MessageView {
    let rows = seq![spec_battle_header(lang, hide_details)] + Seq::new(b.len(), |i: int| spec_battle_row(lang, b, current, i, hide_details));
    MessageView {
        title: spec_tag_text(lang, LocaleTag::Fight),
        description: (if 0 <= current < b.len() { "➡️ **"@ + b[current].name + "**\n"@ } else { Seq::<char>::empty() })
            + "```text\n"@ + spec_table_text(rows, Seq::empty(), Seq::empty()) + "```"@,
        footer: Seq::<char>::empty(),
        colour: None,
    }
}

fn battle_row(lang: LocaleLang, c: &CharacterInitiative, is_current: bool, i: usize, hide_details: bool) -> (r: Vec<String>)
    requires
        i < usize::MAX,
    ensures
        ({
            let v = c@;
            r@.map_values(|x: String| x@) == seq![
                if is_current { "➡️"@ } else { Seq::<char>::empty() },
                spec_int_str(i + 1),
                v.name,
                spec_tag_text(lang, spec_level_tag(v.croll_result.success_level)) + spec_initiative_note(lang, v.croll_result.success_level),
            ] + (if hide_details {
                Seq::<Seq<char>>::empty()
            } else {
                seq![spec_int_str(v.croll_result.threshold as int), spec_int_str(v.croll_result.result as int)]
            })
        }),
{
    let level = c.croll_result.success_level;
    let mut result = locale_text_by_tag_lang(lang, level.to_locale_tag());
    match level {
        SuccessLevel::CriticalSuccess => {
            result.append("\n^ ");
            result.append(locale_text_by_tag_lang(lang, LocaleTag::BonusDieToFirstAction).as_str());
        },
        SuccessLevel::CriticalFailure => {
            result.append("\n^ ");
            result.append(locale_text_by_tag_lang(lang, LocaleTag::LosesFirstRound).as_str());
        },
        _ => {},
    }
    assert(result@ =~= spec_tag_text(lang, spec_level_tag(level)) + spec_initiative_note(lang, level));
    let marker = if is_current { String::from_str("➡️") } else { String::new() };
    let number = nat_to_string((i + 1) as u64);
    let mut row = vec![marker, number, c.name.clone(), result];
    let ghost head = row@;
    assert(head.map_values(|x: String| x@) =~= seq![
        if is_current { "➡️"@ } else { Seq::<char>::empty() },
        spec_int_str(i + 1),
        c@.name,
        spec_tag_text(lang, spec_level_tag(level)) + spec_initiative_note(lang, level),
    ]);
    if !hide_details {
        row.push(int_to_string(c.croll_result.threshold as i64));
        row.push(int_to_string(c.croll_result.result() as i64));
    }
    assert(row@.map_values(|x: String| x@) =~= head.map_values(|x: String| x@) + (if hide_details {
        Seq::<Seq<char>>::empty()
    } else {
        seq![spec_int_str(c@.croll_result.threshold as int), spec_int_str(c@.croll_result.result as int)]
    }));
    row
}

impl MessageContent {
    /// The initiative order of a fight as a table.
    pub fn from_battle(lang: LocaleLang, battle: &Battle, hide_details: bool) -> (r: Self)
        ensures
            r@ == spec_battle_message(lang, spec_views(battle.characters@), battle.current_position as int, hide_details),
    {
        let ghost b = spec_views(battle.characters@);
        let ghost cur = battle.current_position as int;
        let ghost want = seq![spec_battle_header(lang, hide_details)]
            + Seq::new(b.len(), |i: int| spec_battle_row(lang, b, cur, i, hide_details));
        let mut header = vec![
            String::new(),
            String::from_str("#"),
            locale_text_by_tag_lang(lang, LocaleTag::Name),
            locale_text_by_tag_lang(lang, LocaleTag::Result),
        ];
        let ghost h0 = header@;
        if !hide_details {
            header.push(locale_text_by_tag_lang(lang, LocaleTag::Dex));
            header.push(locale_text_by_tag_lang(lang, LocaleTag::Rolls));
        }
        assert(header@.map_values(|x: String| x@) =~= spec_battle_header(lang, hide_details));
        let mut records: Vec<Vec<String>> = vec![header];
        assert(spec_records_view(records@) =~= want.take(1));
        let mut current_name: Option<String> = None;
        let mut i: usize = 0;
        while i < battle.characters.len()
            invariant
                b == spec_views(battle.characters@),
                cur == battle.current_position as int,
                want == seq![spec_battle_header(lang, hide_details)]
                    + Seq::new(b.len(), |k: int| spec_battle_row(lang, b, cur, k, hide_details)),
                i <= battle.characters@.len(),
                spec_records_view(records@) == want.take(i as int + 1),
                current_name matches Some(n) ==> 0 <= cur < i && n@ == b[cur].name,
                current_name is None ==> !(0 <= cur < i),
            decreases battle.characters@.len() - i,
        {
            let c = &battle.characters[i];
            let is_current = battle.current_position == i;
            if is_current {
                current_name = Some(c.name.clone());
            }
            let row = battle_row(lang, c, is_current, i, hide_details);
            let ghost before = spec_records_view(records@);
            let ghost rv = row@;
            records.push(row);
            assert(b[i as int] == c@);
            assert(rv.map_values(|x: String| x@) =~= spec_battle_row(lang, b, cur, i as int, hide_details));
            assert(spec_records_view(records@) =~= before.push(want[i as int + 1]));
            assert(spec_records_view(records@) =~= want.take(i as int + 2));
            i += 1;
        }
        assert(want.take(battle.characters@.len() as int + 1) =~= want);
        let no_columns: Vec<usize> = Vec::new();
        let table = render_table(records, no_columns.clone(), no_columns);
        let mut out = String::new();
        match &current_name {
            Some(n) => {
                out.append("➡️ **");
                out.append(n.as_str());
                out.append("**\n");
            },
            None => {},
        }
        out.append("```text\n");
        out.append(table.as_str());
        out.append("```");
        let title = locale_text_by_tag_lang(lang, LocaleTag::Fight);
        MessageContent { title, description: out, footer: String::new(), colour: None }
    }
}

/// The order of rolled characteristics by total, lowest first.
pub open spec fn spec_total_lt() -> spec_fn((LocaleTag, RollResultView), (LocaleTag, RollResultView)) -> bool {
    |a: (LocaleTag, RollResultView), b: (LocaleTag, RollResultView)| spec_clamped_result(a.1) < spec_clamped_result(b.1)
}

/// The rolled characteristics as the table lists them: highest total first.
pub open spec fn spec_attribute_roll_rows(s: Seq<(LocaleTag, RollResultView)>) -> Seq<(LocaleTag, RollResultView)> {
    spec_sort_by(s, spec_total_lt()).reverse()
}

/// The dice of a roll joined by commas.
pub open spec fn spec_dice_list(rolls: Seq<i32>) -> Seq<char> {
    spec_join(rolls.map_values(|r: i32| spec_int_str(r as int)), ", "@)
}

/// The row of a rolled characteristic: its name, its value with half of it
/// and its total, and its dice.
pub open spec fn spec_attribute_roll_row(lang: LocaleLang, e: (LocaleTag, RollResultView)) -> Seq<Seq<char>> {
    let r = spec_clamped_result(e.1);
    seq![
        spec_tag_text(lang, e.0),
        spec_int_str(r * 5) + " ("@ + spec_int_str(r * 5 / 2) + "/"@ + spec_int_str(r) + ")"@,
        "["@ + spec_dice_list(e.1.rolls) + (if e.1.modifier == 0 {
            Seq::<char>::empty()
        } else {
            ", "@ + spec_int_str(e.1.modifier as int)
        }) + "] ("@ + spec_int_str(r) + ")"@,
    ]
}

/// The tags that name a rolled characteristic.
pub open spec fn spec_is_characteristic(t: LocaleTag) -> bool {
    t == LocaleTag::Strength || t == LocaleTag::Constitution || t == LocaleTag::Size || t == LocaleTag::Dexterity
        || t == LocaleTag::Appearance || t == LocaleTag::Intelligence || t == LocaleTag::Power || t == LocaleTag::Education
}

/// The message of rolled characteristics: the table of them, the points
/// against the quick rules' sum, and a colour that tells whether they fall short.
pub open spec fn spec_attributes_roll_message(lang: LocaleLang, s: Seq<(LocaleTag, RollResultView)>, is_pulp: bool) -> MessageView {
    let rows = seq![seq![
        spec_tag_text(lang, LocaleTag::Characteristic),
        spec_tag_text(lang, LocaleTag::Value),
        spec_tag_text(lang, LocaleTag::Rolls),
    ]] + spec_attribute_roll_rows(s).map_values(|e: (LocaleTag, RollResultView)| spec_attribute_roll_row(lang, e));
    let quick = if is_pulp { 500int } else { 460int };
    MessageView {
        title: Seq::<char>::empty(),
        description: "```text\n"@ + spec_table_text(rows, Seq::empty(), Seq::empty()) + "```"@,
        footer: spec_int_str(spec_points(s)) + "/"@ + spec_int_str(quick),
        colour: Some(if !(spec_points(s) < quick) {
            spec_level_hex(SuccessLevel::Success)
        } else {
            spec_level_hex(SuccessLevel::Failure)
        }),
    }
}

fn dice_list(rolls: &Vec<i32>) -> (r: String)
    ensures
        r@ == spec_dice_list(rolls@),
{
    let ghost parts = rolls@.map_values(|r: i32| spec_int_str(r as int));
    let mut j = String::new();
    let mut i: usize = 0;
    assert(parts.take(0) =~= Seq::<Seq<char>>::empty());
    while i < rolls.len()
        invariant
            parts == rolls@.map_values(|r: i32| spec_int_str(r as int)),
            i <= rolls@.len(),
            j@ == spec_join(parts.take(i as int), ", "@),
        decreases rolls@.len() - i,
    {
        if i > 0 {
            j.append(", ");
        }
        let ghost mid = j@;
        push_int(&mut j, rolls[i] as i64);
        proof {
            let tk = parts.take(i as int + 1);
            assert(tk.drop_last() =~= parts.take(i as int));
            assert(tk.last() == parts[i as int]);
            if i == 0 {
                assert(parts.take(0) =~= Seq::<Seq<char>>::empty());
                assert(j@ =~= tk[0]);
            } else {
                assert(j@ =~= spec_join(tk.drop_last(), ", "@) + ", "@ + tk.last());
            }
        }
        i += 1;
    }
    assert(parts.take(rolls@.len() as int) =~= parts);
    j
}

fn attribute_roll_row(lang: LocaleLang, tag: LocaleTag, dr: &RollResult) -> (r: Vec<String>)
    requires
        spec_is_characteristic(tag),
        spec_clamped_result(dr@) * 5 <= i32::MAX,
    ensures
        r@.map_values(|x: String| x@) == spec_attribute_roll_row(lang, (tag, dr@)),
{
    let res = dr.result();
    let mut value = int_to_string((res * 5) as i64);
    value.append(" (");
    push_int(&mut value, (res * 5 / 2) as i64);
    value.append("/");
    push_int(&mut value, res as i64);
    value.append(")");
    let mut rolls = String::from_str("[");
    let list = dice_list(&dr.rolls);
    rolls.append(list.as_str());
    if dr.modifier != 0 {
        rolls.append(", ");
        push_int(&mut rolls, dr.modifier as i64);
    }
    rolls.append("] (");
    push_int(&mut rolls, res as i64);
    rolls.append(")");
    let ghost e = (tag, dr@);
    let ghost r0 = spec_clamped_result(e.1);
    assert(value@ =~= spec_int_str(r0 * 5) + " ("@ + spec_int_str(r0 * 5 / 2) + "/"@ + spec_int_str(r0) + ")"@);
    assert(rolls@ =~= "["@ + spec_dice_list(e.1.rolls) + (if e.1.modifier == 0 {
        Seq::<char>::empty()
    } else {
        ", "@ + spec_int_str(e.1.modifier as int)
    }) + "] ("@ + spec_int_str(r0) + ")"@);
    let r = vec![locale_text_by_tag_lang(lang, tag), value, rolls];
    assert(r@.map_values(|x: String| x@) =~= spec_attribute_roll_row(lang, (tag, dr@)));
    r
}

fn sorted_by_total(v: &Vec<(LocaleTag, RollResult)>) -> (r: Vec<(LocaleTag, RollResult)>)
    ensures
        spec_roll_map_views(r@) == spec_sort_by(spec_roll_map_views(v@), spec_total_lt()),
{
    let ghost input = spec_roll_map_views(v@);
    let ghost lt = spec_total_lt();
    let mut out: Vec<(LocaleTag, RollResult)> = Vec::new();
    let mut i: usize = 0;
    assert(input.take(0) =~= Seq::<(LocaleTag, RollResultView)>::empty());
    assert(spec_roll_map_views(out@) =~= spec_sort_by(input.take(0), lt));
    while i < v.len()
        invariant
            input == spec_roll_map_views(v@),
            lt == spec_total_lt(),
            i <= v@.len(),
            spec_roll_map_views(out@) == spec_sort_by(input.take(i as int), lt),
        decreases v@.len() - i,
    {
        let x = (v[i].0, v[i].1.clone());
        let key = x.1.result();
        let ghost before = spec_roll_map_views(out@);
        let mut p: usize = out.len();
        while p > 0 && key < out[p - 1].1.result()
            invariant
                p <= out@.len(),
                before == spec_roll_map_views(out@),
                lt == spec_total_lt(),
                key == spec_clamped_result(x.1@),
                forall|k: int| p <= k < before.len() ==> lt((x.0, x.1@), #[trigger] before[k]),
            decreases p,
        {
            p = p - 1;
        }
        proof {
            lemma_insert_sorted_at(before, (x.0, x.1@), lt, p as int);
            lemma_sort_step(input, lt, i as int);
        }
        let ghost xv = (x.0, x.1@);
        out.insert(p, x);
        assert(spec_roll_map_views(out@) =~= before.insert(p as int, xv));
        i += 1;
    }
    assert(input.take(v@.len() as int) =~= input);
    out
}

impl MessageContent {
    /// Rolled characteristics as a table, highest total first, with the
    /// points against the quick rules' sum in the footer.
    pub fn from_attributes_result(lang: LocaleLang, attribute_roll_result: AttributeRollResult) -> (r: Self)
        requires
            spec_points_fit(spec_roll_map_views(attribute_roll_result.roll_map@)),
            forall|i: int| 0 <= i < attribute_roll_result.roll_map@.len()
                ==> spec_is_characteristic((#[trigger] attribute_roll_result.roll_map@[i]).0),
        ensures
            r@ == spec_attributes_roll_message(lang, spec_roll_map_views(attribute_roll_result.roll_map@), attribute_roll_result.is_pulp),
    {
        let ghost s = spec_roll_map_views(attribute_roll_result.roll_map@);
        let sorted = sorted_by_total(&attribute_roll_result.roll_map);
        proof { crate::utils::lemma_sort_by_elems(s, spec_total_lt()); }
        let ghost sv = spec_roll_map_views(sorted@);
        let ghost rows_want = spec_attribute_roll_rows(s).map_values(|e: (LocaleTag, RollResultView)| spec_attribute_roll_row(lang, e));
        let header = vec![
            locale_text_by_tag_lang(lang, LocaleTag::Characteristic),
            locale_text_by_tag_lang(lang, LocaleTag::Value),
            locale_text_by_tag_lang(lang, LocaleTag::Rolls),
        ];
        let ghost want = seq![seq![
            spec_tag_text(lang, LocaleTag::Characteristic),
            spec_tag_text(lang, LocaleTag::Value),
            spec_tag_text(lang, LocaleTag::Rolls),
        ]] + rows_want;
        assert(header@.map_values(|x: String| x@) =~= want[0]);
        let mut records: Vec<Vec<String>> = vec![header];
        assert(spec_records_view(records@) =~= want.take(1));
        let n = sorted.len();
        let mut i: usize = 0;
        while i < n
            invariant
                n == sorted@.len(),
                n == s.len(),
                s == spec_roll_map_views(attribute_roll_result.roll_map@),
                sv == spec_roll_map_views(sorted@),
                sv == spec_sort_by(s, spec_total_lt()),
                forall|k: int| 0 <= k < s.len() ==> s.contains(#[trigger] spec_sort_by(s, spec_total_lt())[k]),
                spec_points_fit(s),
                forall|k: int| 0 <= k < s.len() ==> spec_is_characteristic((#[trigger] s[k]).0),
                rows_want == spec_attribute_roll_rows(s).map_values(|e: (LocaleTag, RollResultView)| spec_attribute_roll_row(lang, e)),
                want == seq![seq![
                    spec_tag_text(lang, LocaleTag::Characteristic),
                    spec_tag_text(lang, LocaleTag::Value),
                    spec_tag_text(lang, LocaleTag::Rolls),
                ]] + rows_want,
                i <= n,
                spec_records_view(records@) == want.take(i as int + 1),
            decreases n - i,
        {
            let e = &sorted[n - 1 - i];
            proof {
                let k = n - 1 - i;
                assert(sv[k as int] == (e.0, e.1@));
                assert(s.contains(sv[k as int]));
                let j = choose|j: int| 0 <= j < s.len() && s[j] == sv[k as int];
                assert(spec_is_characteristic(s[j].0));
                assert(spec_clamped_result(s[j].1) * 5 <= i32::MAX);
                assert(spec_attribute_roll_rows(s)[i as int] == sv[k as int]);
            }
            let row = attribute_roll_row(lang, e.0, &e.1);
            let ghost before = spec_records_view(records@);
            let ghost rv = row@;
            records.push(row);
            assert(rv.map_values(|x: String| x@) =~= want[i as int + 1]);
            assert(spec_records_view(records@) =~= before.push(want[i as int + 1]));
            assert(spec_records_view(records@) =~= want.take(i as int + 2));
            i += 1;
        }
        assert(want.take(n as int + 1) =~= want);
        let no_columns: Vec<usize> = Vec::new();
        let table = render_table(records, no_columns.clone(), no_columns);
        let mut out = String::from_str("```text\n");
        out.append(table.as_str());
        out.append("```");
        let points = attribute_roll_result.points_sum();
        let quick = attribute_roll_result.quick_rules_pts();
        let mut footer = int_to_string(points as i64);
        footer.append("/");
        push_int(&mut footer, quick as i64);
        let colour = if !attribute_roll_result.is_sum_lt_quick_rules() {
            SuccessLevel::Success.hex()
        } else {
            SuccessLevel::Failure.hex()
        };
        MessageContent { title: String::new(), description: out, footer, colour: Some(colour) }
    }
}

} // verus!
