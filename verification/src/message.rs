//! The messages that the library composes: a title, a description, a
//! footer and a colour.
use crate::locale::{locale_text_by_tag_lang, spec_locale_entry, spec_text, LocaleLang, LocaleTag};
use crate::roller::croll::{CrollResult, CrollView};
use crate::roller::improve_roll::ImproveResult;
use crate::roller::modifier_dice::ModifierDiceType;
use crate::roller::roll::{RollResult, RollResultView};
use crate::roller::success_level::{div_trunc, spec_div_trunc, spec_level_hex, spec_level_tag, spec_level_threshold, spec_next_level, spec_rank, SuccessLevel};
use crate::text::{push_int, replace_char, spec_int_str, spec_replace};
use vstd::prelude::*;

verus! {

/// A message: its title, description, footer and colour.
#[derive(Debug)]
pub struct MessageContent {
    pub title: String,
    pub description: String,
    pub footer: String,
    pub colour: Option<u32>,
}

/// The same message under the name the sheet formatters use.
pub type Message = MessageContent;

pub struct MessageView {
    pub title: Seq<char>,
    pub description: Seq<char>,
    pub footer: Seq<char>,
    pub colour: Option<u32>,
}

impl View for MessageContent {
    type V = MessageView;

    open spec fn view(&self) -> MessageView {
        MessageView { title: self.title@, description: self.description@, footer: self.footer@, colour: self.colour }
    }
}

impl Default for MessageContent {
    fn default() -> (r: Self)
        ensures
            r@ == (MessageView {
                title: Seq::<char>::empty(),
                description: Seq::<char>::empty(),
                footer: Seq::<char>::empty(),
                colour: None,
            }),
    {
        MessageContent { title: String::new(), description: String::new(), footer: String::new(), colour: None }
    }
}

impl Clone for MessageContent {
    fn clone(&self) -> (r: Self)
        ensures
            r@ == self@,
    {
        MessageContent {
            title: self.title.clone(),
            description: self.description.clone(),
            footer: self.footer.clone(),
            colour: self.colour,
        }
    }
}

/// A message with only a description.
pub open spec fn spec_description_only(d: Seq<char>) -> MessageView {
    MessageView { title: Seq::<char>::empty(), description: d, footer: Seq::<char>::empty(), colour: None }
}

/// The text of a tag in a language.
pub open spec fn spec_tag_text(lang: LocaleLang, tag: LocaleTag) -> Seq<char> {
    spec_text(spec_locale_entry(tag)->0, lang)
}

/// `s` in bold.
pub open spec fn spec_bold(s: Seq<char>) -> Seq<char> {
    "**"@ + s + "**"@
}

/// The total of a roll, no less than zero.
pub open spec fn spec_roll_total(r: RollResultView) -> int {
    if r.result > 0 { r.result as int } else { 0 }
}

/// The footer of a roll: its query without a leading `+`, with `k` for
/// `d` in Polish.
pub open spec fn spec_roll_footer(lang: LocaleLang, query: Seq<char>) -> Seq<char> {
    let q = if query.len() > 0 && query[0] == '+' { query.drop_first() } else { query };
    match lang {
        LocaleLang::Polski => spec_replace(q, 'd', "k"@),
        LocaleLang::English => q,
    }
}

/// The message of a generic roll.
pub open spec fn spec_dice_message(lang: LocaleLang, r: RollResultView, hide_details: bool) -> MessageView {
    let title = spec_bold(spec_int_str(spec_roll_total(r)));
    if hide_details {
        MessageView { title, description: Seq::<char>::empty(), footer: Seq::<char>::empty(), colour: None }
    } else {
        let d = spec_tag_text(lang, LocaleTag::Rolls) + " "@ + r.roll_msg;
        MessageView {
            title,
            description: if r.result < 0 { d + "\n*("@ + spec_int_str(r.result as int) + ")*"@ } else { d },
            footer: spec_roll_footer(lang, r.query),
            colour: None,
        }
    }
}

/// The lines that tell how much luck buys each better level: from the
/// level after `from` up, while the cost changes.
pub open spec fn spec_luck_ladder(lang: LocaleLang, from: SuccessLevel, prev: int, result: int, threshold: int) -> Seq<char>
    decreases 5 - spec_rank(from),
{
    match spec_next_level(from) {
        None => Seq::<char>::empty(),
        Some(l) => {
            let d = result - spec_level_threshold(l, threshold);
            if d == prev {
                Seq::<char>::empty()
            } else {
                "\n🍀 "@ + spec_int_str(d) + " ➡️ "@ + spec_tag_text(lang, spec_level_tag(l))
                    + spec_luck_ladder(lang, l, d, result, threshold)
            }
        },
    }
}

/// The tens dice of a skill test, each shown as `` `[x0]` `` after a space.
pub open spec fn spec_tens_text(tens: Seq<i32>) -> Seq<char>
    decreases tens.len(),
{
    if tens.len() == 0 {
        Seq::<char>::empty()
    } else {
        spec_tens_text(tens.drop_last()) + " `["@ + spec_int_str(tens.last() as int) + "0]`"@
    }
}

/// Luck can buy each level up from a skill test without overflow.
pub open spec fn spec_ladder_fits(result: int, threshold: int) -> bool {
    &&& threshold > i32::MIN
    &&& i32::MIN <= result - spec_level_threshold(SuccessLevel::Success, threshold) <= i32::MAX
    &&& i32::MIN <= result - spec_level_threshold(SuccessLevel::HardSuccess, threshold) <= i32::MAX
    &&& i32::MIN <= result - spec_level_threshold(SuccessLevel::ExtremeSuccess, threshold) <= i32::MAX
}

/// The message of a skill test: its level, and unless hidden the roll,
/// the dice, the bonus or penalty dice and what luck would buy.
pub open spec fn spec_croll_message(lang: LocaleLang, c: CrollView, hide_details: bool, hide_luck: bool) -> MessageView {
    MessageView {
        title: spec_bold(spec_tag_text(lang, spec_level_tag(c.success_level))),
        colour: Some(spec_level_hex(c.success_level)),
        footer: Seq::<char>::empty(),
        description: if hide_details {
            Seq::<char>::empty()
        } else {
            spec_bold(spec_int_str(c.result as int)) + " / "@ + spec_int_str(c.threshold as int)
                + "\n"@ + spec_tag_text(lang, LocaleTag::Rolls) + " "@ + spec_tens_text(c.ten_rolls)
                + " `["@ + spec_int_str(c.one_roll as int) + "]`"@
                + (match c.modifier_dice {
                    Some(m) => "\n"@ + spec_tag_text(lang, match m.dice_type {
                        ModifierDiceType::Bonus => LocaleTag::Bonus,
                        ModifierDiceType::Penalty => LocaleTag::Penalty,
                    }) + " "@ + spec_tag_text(lang, LocaleTag::Dice) + ": "@ + spec_int_str(m.count as int),
                    None => Seq::<char>::empty(),
                })
                + (if hide_luck {
                    Seq::<char>::empty()
                } else {
                    spec_luck_ladder(lang, c.success_level, 0, c.result as int, c.threshold as int)
                })
        },
    }
}

impl MessageContent {
    /// The message as plain text: the title in bold, if any, then the description.
    pub fn to_content(&self) -> (r: String)
        ensures
            r@ == (if self.title@.len() > 0 { spec_bold(self.title@) + "\n\n"@ } else { Seq::<char>::empty() })
                + self.description@,
    {
        let mut out = String::new();
        if self.title.as_str().unicode_len() > 0 {
            out.append("**");
            out.append(self.title.as_str());
            out.append("**");
            out.append("\n\n");
            assert(out@ =~= spec_bold(self.title@) + "\n\n"@);
        } else {
            assert(out@ =~= Seq::<char>::empty());
        }
        out.append(self.description.as_str());
        out
    }

    /// The message of a generic roll: its total, and unless hidden its
    /// dice, its negative total and its query.
    pub fn from_dice_result(lang: LocaleLang, roll_result: RollResult, hide_details: bool) -> (r: Self)
        ensures
            r@ == spec_dice_message(lang, roll_result@, hide_details),
    {
        let mut title = String::from_str("**");
        push_int(&mut title, roll_result.result() as i64);
        title.append("**");
        let mut mc = MessageContent { title, description: String::new(), footer: String::new(), colour: None };
        if !hide_details {
            let mut description = locale_text_by_tag_lang(lang, LocaleTag::Rolls);
            description.append(" ");
            description.append(roll_result.roll_msg.as_str());
            if roll_result.result_real() < 0 {
                description.append("\n*(");
                push_int(&mut description, roll_result.result_real() as i64);
                description.append(")*");
            }
            let q = roll_result.query.as_str();
            let n = q.unicode_len();
            let trimmed = if n > 0 && q.get_char(0) == '+' { q.substring_char(1, n) } else { q };
            let footer = match lang {
                LocaleLang::Polski => replace_char(trimmed, 'd', "k"),
                LocaleLang::English => String::from_str(trimmed),
            };
            mc.description = description;
            mc.footer = footer;
            proof {
                let rq = roll_result@.query;
                if rq.len() > 0 && rq[0] == '+' {
                    assert(rq.subrange(1, rq.len() as int) =~= rq.drop_first());
                }
            }
        }
        mc
    }

    /// The message of a skill test: its level, and unless hidden the roll,
    /// the dice, the bonus or penalty dice and what luck would buy.
    #[verifier::rlimit(60)]
    pub fn from_croll_result(lang: LocaleLang, croll_result: &CrollResult, hide_details: bool, hide_luck: bool) -> (r: Self)
        requires
            !hide_details && !hide_luck ==> spec_ladder_fits(croll_result.result as int, croll_result.threshold as int),
        ensures
            r@ == spec_croll_message(lang, croll_result@, hide_details, hide_luck),
    {
        let level = croll_result.success_level;
        let mut title = String::from_str("**");
        let level_text = locale_text_by_tag_lang(lang, level.to_locale_tag());
        title.append(level_text.as_str());
        title.append("**");
        assert(title@ =~= spec_bold(spec_tag_text(lang, spec_level_tag(croll_result.success_level))));
        let mut mc = MessageContent { title, description: String::new(), footer: String::new(), colour: Some(level.hex()) };
        if !hide_details {
            let mut d = String::from_str("**");
            push_int(&mut d, croll_result.result() as i64);
            d.append("**");
            d.append(" / ");
            push_int(&mut d, croll_result.threshold as i64);
            d.append("\n");
            let rolls = locale_text_by_tag_lang(lang, LocaleTag::Rolls);
            d.append(rolls.as_str());
            d.append(" ");
            let ghost before_tens = d@;
            assert(before_tens =~= spec_bold(spec_int_str(croll_result.result as int)) + " / "@
                + spec_int_str(croll_result.threshold as int) + "\n"@ + spec_tag_text(lang, LocaleTag::Rolls) + " "@);
            let mut i: usize = 0;
            assert(croll_result.ten_rolls@.take(0) =~= Seq::<i32>::empty());
            while i < croll_result.ten_rolls.len()
                invariant
                    i <= croll_result.ten_rolls@.len(),
                    d@ == before_tens + spec_tens_text(croll_result.ten_rolls@.take(i as int)),
                decreases croll_result.ten_rolls@.len() - i,
            {
                let ghost prev = d@;
                d.append(" `[");
                push_int(&mut d, croll_result.ten_rolls[i] as i64);
                d.append("0]`");
                assert(croll_result.ten_rolls@.take(i as int + 1).drop_last() =~= croll_result.ten_rolls@.take(i as int));
                assert(d@ =~= before_tens + spec_tens_text(croll_result.ten_rolls@.take(i as int + 1)));
                i += 1;
            }
            assert(croll_result.ten_rolls@.take(croll_result.ten_rolls@.len() as int) =~= croll_result.ten_rolls@);
            d.append(" `[");
            push_int(&mut d, croll_result.one_roll as i64);
            d.append("]`");
            let ghost head = d@;
            assert(head =~= before_tens + spec_tens_text(croll_result.ten_rolls@) + " `["@
                + spec_int_str(croll_result.one_roll as int) + "]`"@);
            match &croll_result.modifier_dice {
                Some(m) => {
                    d.append("\n");
                    let kind = locale_text_by_tag_lang(lang, m.dice_type.to_locale_tag());
                    d.append(kind.as_str());
                    d.append(" ");
                    let dice = locale_text_by_tag_lang(lang, LocaleTag::Dice);
                    d.append(dice.as_str());
                    d.append(": ");
                    push_int(&mut d, m.count as i64);
                },
                None => {},
            }
            let ghost with_mod = d@;
            assert(with_mod =~= head + (match croll_result.modifier_dice {
                Some(m) => "\n"@ + spec_tag_text(lang, match m.dice_type {
                    ModifierDiceType::Bonus => LocaleTag::Bonus,
                    ModifierDiceType::Penalty => LocaleTag::Penalty,
                }) + " "@ + spec_tag_text(lang, LocaleTag::Dice) + ": "@ + spec_int_str(m.count as int),
                None => Seq::<char>::empty(),
            }));
            if !hide_luck {
                let ghost before_ladder = d@;
                let mut previous_delta: i32 = 0;
                let mut current = level;
                let result = croll_result.result();
                let threshold = croll_result.threshold;
                loop
                    invariant_except_break
                        spec_ladder_fits(result as int, threshold as int),
                        before_ladder + spec_luck_ladder(lang, level, 0, result as int, threshold as int)
                            == d@ + spec_luck_ladder(lang, current, previous_delta as int, result as int, threshold as int),
                    ensures
                        d@ == before_ladder + spec_luck_ladder(lang, level, 0, result as int, threshold as int),
                    decreases 5 - spec_rank(current),
                {
                    let ghost from = current;
                    match current.next() {
                        None => {
                            assert(d@ =~= d@ + Seq::<char>::empty());
                            break;
                        },
                        Some(l) => {
                            let luck_delta = l.delta(result, threshold);
                            if previous_delta == luck_delta {
                                assert(d@ =~= d@ + Seq::<char>::empty());
                                break;
                            }
                            let ghost old_prev = previous_delta;
                            previous_delta = luck_delta;
                            let ghost prev = d@;
                            d.append("\n🍀 ");
                            push_int(&mut d, luck_delta as i64);
                            d.append(" ➡️ ");
                            let lt = locale_text_by_tag_lang(lang, l.to_locale_tag());
                            d.append(lt.as_str());
                            assert(spec_luck_ladder(lang, from, old_prev as int, result as int, threshold as int)
                                == "\n🍀 "@ + spec_int_str(luck_delta as int) + " ➡️ "@ + spec_tag_text(lang, spec_level_tag(l))
                                + spec_luck_ladder(lang, l, luck_delta as int, result as int, threshold as int));
                            assert(d@ + spec_luck_ladder(lang, l, luck_delta as int, result as int, threshold as int)
                                =~= prev + spec_luck_ladder(lang, from, old_prev as int, result as int, threshold as int));
                        },
                    }
                }
            }
            assert(d@ =~= with_mod + (if hide_luck {
                Seq::<char>::empty()
            } else {
                spec_luck_ladder(lang, level, 0, croll_result.result as int, croll_result.threshold as int)
            }));
            mc.description = d;
        }
        mc
    }
}

impl MessageContent {
    /// The message with a skill's name on a new line of the title.
    pub fn with_skill_name(self, skill_name: &str) -> (r: Self)
        ensures
            r@ == (MessageView { title: self@.title + "\n"@ + skill_name@, ..self@ }),
    {
        let mut m = self;
        m.title.append("\n");
        m.title.append(skill_name);
        m
    }

    /// The message with a character's name after the title.
    pub fn with_character_name(self, name: &str) -> (r: Self)
        ensures
            r@ == (MessageView { title: self@.title + " (`"@ + name@ + "`)"@, ..self@ }),
    {
        let mut m = self;
        m.title.append(" (`");
        m.title.append(name);
        m.title.append("`)");
        m
    }

    /// The message of an improvement test.
    pub fn from_improve(lang: LocaleLang, improve_result: &ImproveResult) -> (r: Self)
        ensures
            r@ == (MessageView {
                title: spec_bold(spec_tag_text(lang, spec_level_tag(improve_result.success_level))),
                colour: Some(spec_level_hex(improve_result.success_level)),
                description: spec_bold(spec_int_str(improve_result.result as int)) + " / "@
                    + spec_int_str(improve_result.threshold as int),
                footer: Seq::<char>::empty(),
            }),
    {
        let mut title = String::from_str("**");
        let t = locale_text_by_tag_lang(lang, improve_result.success_level.to_locale_tag());
        title.append(t.as_str());
        title.append("**");
        let mut d = String::from_str("**");
        push_int(&mut d, improve_result.result as i64);
        d.append("**");
        d.append(" / ");
        push_int(&mut d, improve_result.threshold as i64);
        assert(d@ =~= spec_bold(spec_int_str(improve_result.result as int)) + " / "@
            + spec_int_str(improve_result.threshold as int));
        assert(title@ =~= spec_bold(spec_tag_text(lang, spec_level_tag(improve_result.success_level))));
        MessageContent { title, description: d, footer: String::new(), colour: Some(improve_result.success_level.hex()) }
    }

    /// The regular, hard and extreme levels of a threshold.
    pub fn from_levels(threshold: i32) -> (r: Self)
        ensures
            r@ == (MessageView {
                title: spec_bold(spec_int_str(threshold as int) + " / "@ + spec_int_str(spec_div_trunc(threshold as int, 2))
                    + " / "@ + spec_int_str(spec_div_trunc(threshold as int, 5))),
                description: Seq::<char>::empty(),
                footer: Seq::<char>::empty(),
                colour: None,
            }),
    {
        let mut t = String::from_str("**");
        push_int(&mut t, threshold as i64);
        t.append(" / ");
        push_int(&mut t, div_trunc(threshold, 2) as i64);
        t.append(" / ");
        push_int(&mut t, div_trunc(threshold, 5) as i64);
        t.append("**");
        assert(t@ =~= spec_bold(spec_int_str(threshold as int) + " / "@ + spec_int_str(spec_div_trunc(threshold as int, 2))
            + " / "@ + spec_int_str(spec_div_trunc(threshold as int, 5))));
        MessageContent { title: t, description: String::new(), footer: String::new(), colour: None }
    }
}

} // verus!
