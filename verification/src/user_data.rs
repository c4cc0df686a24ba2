//! What the library keeps for each user, and how commands are grouped.
use crate::character::Character;
use crate::locale::{locale_text_by_tag_lang, LocaleLang, LocaleTag};
use crate::message::spec_tag_text;
use crate::table::{render_table, spec_table_text};
use crate::text::{eq_ignore_case, spec_eq_ignore_case, str_equal};
use crate::utils::{lemma_first_index, lemma_first_index_at, lemma_first_index_full, lemma_first_index_step, spec_first_index};
use vstd::prelude::*;

verus! {

/// A user's characters under their names, the one in play, and the
/// language of the user's messages.
#[derive(Debug)]
pub struct UserData {
    pub characters: Vec<(String, Character)>,
    pub active_character: Option<String>,
    pub lang: LocaleLang,
}

impl Default for UserData {
    fn default() -> (r: Self)
        ensures
            r.characters@.len() == 0,
            r.active_character is None,
            r.lang == LocaleLang::English,
    {
        UserData { characters: Vec::new(), active_character: None, lang: LocaleLang::English }
    }
}

/// The entry of a character kept under `name`.
pub open spec fn spec_key_named(name: Seq<char>) -> spec_fn((String, Character)) -> bool {
    |p: (String, Character)| p.0@ == name
}

/// The position of the character kept under `name`.
pub open spec fn spec_find_character(s: Seq<(String, Character)>, name: Seq<char>) -> Option<int> {
    spec_first_index(s, spec_key_named(name))
}

/// No name keeps two characters.
pub open spec fn spec_keys_distinct(s: Seq<(String, Character)>) -> bool {
    forall|i: int, j: int| 0 <= i < j < s.len() ==> #[trigger] s[i].0@ != #[trigger] s[j].0@
}

/// Why the character in play could not be had.
#[derive(Debug)]
pub enum ActiveError {
    /// No character is in play.
    NoCharacterSelected,
    /// The character in play is kept under no name of the user's.
    CharacterNotFound(String),
}

/// The message of a refusal, in a language.
pub open spec fn spec_active_error_text(e: &ActiveError, lang: LocaleLang) -> Seq<char> {
    match e {
        ActiveError::NoCharacterSelected => spec_tag_text(lang, LocaleTag::NoCharacterSelected),
        ActiveError::CharacterNotFound(n) => spec_tag_text(lang, LocaleTag::CharacterNotFound) + ": `"@ + n@ + "`"@,
    }
}

impl ActiveError {
    pub fn to_string(&self, lang: LocaleLang) -> (r: String)
        ensures
            r@ == spec_active_error_text(self, lang),
    {
        match self {
            ActiveError::NoCharacterSelected => locale_text_by_tag_lang(lang, LocaleTag::NoCharacterSelected),
            ActiveError::CharacterNotFound(n) => {
                let mut s = locale_text_by_tag_lang(lang, LocaleTag::CharacterNotFound);
                s.append(": `");
                s.append(n.as_str());
                s.append("`");
                s
            },
        }
    }
}

/// The position of the character in play: none selected, or not kept
/// under its name, is an error.
pub open spec fn spec_active_index(s: Seq<(String, Character)>, active: Option<String>) -> Result<int, ()> {
    match active {
        None => Err(()),
        Some(a) => match spec_find_character(s, a@) {
            Some(i) => Ok(i),
            None => Err(()),
        },
    }
}

/// A user may keep no more characters.
#[derive(Debug, Clone, Copy, PartialEq, Eq, Structural)]
pub enum CreateError {
    TooManyCharacters,
}

proof fn lemma_found_after_prefix<T>(s: Seq<T>, p: spec_fn(T) -> bool, i: int)
    requires
        0 <= i < s.len(),
        spec_first_index(s.take(i), p) is None,
        p(s[i]),
    ensures
        spec_first_index(s, p) == Some(i),
{
    lemma_first_index(s.take(i), p);
    assert forall|j: int| 0 <= j < i implies !p(#[trigger] s[j]) by {
        assert(s.take(i)[j] == s[j]);
    }
    lemma_first_index_at(s, p, i);
}

impl UserData {
    /// The position of the character kept under `name`.
    pub fn find_character(&self, name: &str) -> (r: Option<usize>)
        ensures
            match r {
                Some(i) => spec_find_character(self.characters@, name@) == Some(i as int) && i < self.characters@.len(),
                None => spec_find_character(self.characters@, name@) is None,
            },
    {
        let ghost s = self.characters@;
        let ghost p = spec_key_named(name@);
        let mut i: usize = 0;
        while i < self.characters.len()
            invariant
                s == self.characters@,
                p == spec_key_named(name@),
                i <= s.len(),
                spec_first_index(s.take(i as int), p) is None,
            decreases s.len() - i,
        {
            proof {
                lemma_first_index_step(s, p, i as int);
            }
            if str_equal(self.characters[i].0.as_str(), name) {
                proof {
                    lemma_found_after_prefix(s, p, i as int);
                }
                return Some(i);
            }
            i += 1;
        }
        proof {
            lemma_first_index_full(s, p);
        }
        None
    }

    /// The position of the character in play.
    pub fn active_index(&self) -> (r: Result<usize, ActiveError>)
        ensures
            match r {
                Ok(i) => spec_active_index(self.characters@, self.active_character) == Ok::<int, ()>(i as int)
                    && i < self.characters@.len(),
                Err(ActiveError::NoCharacterSelected) => self.active_character is None,
                Err(ActiveError::CharacterNotFound(n)) => self.active_character matches Some(a) && a@ == n@
                    && spec_find_character(self.characters@, a@) is None,
            },
    {
        match &self.active_character {
            None => Err(ActiveError::NoCharacterSelected),
            Some(a) => match self.find_character(a.as_str()) {
                Some(i) => Ok(i),
                None => Err(ActiveError::CharacterNotFound(a.clone())),
            },
        }
    }

    /// Keeps `character` under `name`, in place of one kept there before.
    pub fn insert_character(&mut self, name: &str, character: Character)
        requires
            spec_keys_distinct(old(self).characters@),
        ensures
            spec_keys_distinct(final(self).characters@),
            final(self).active_character == old(self).active_character,
            final(self).lang == old(self).lang,
            spec_find_character(final(self).characters@, name@) == Some(match spec_find_character(old(self).characters@, name@) {
                Some(i) => i,
                None => old(self).characters@.len() as int,
            }),
            match spec_find_character(old(self).characters@, name@) {
                Some(i) => final(self).characters@.len() == old(self).characters@.len()
                    && final(self).characters@[i].0 == old(self).characters@[i].0
                    && final(self).characters@[i].1@ == character@
                    && forall|j: int| 0 <= j < old(self).characters@.len() && j != i
                        ==> #[trigger] final(self).characters@[j] == old(self).characters@[j],
                None => final(self).characters@.len() == old(self).characters@.len() + 1
                    && final(self).characters@.last().0@ == name@
                    && final(self).characters@.last().1@ == character@
                    && forall|j: int| 0 <= j < old(self).characters@.len()
                        ==> #[trigger] final(self).characters@[j] == old(self).characters@[j],
            },
    {
        let ghost before = self.characters@;
        let ghost cv = character@;
        match self.find_character(name) {
            Some(i) => {
                let key = self.characters[i].0.clone();
                let ghost k0 = before[i as int].0;
                self.characters.set(i, (key, character));
                proof {
                    lemma_first_index(before, spec_key_named(name@));
                    assert forall|a: int, b: int| 0 <= a < b < self.characters@.len() implies
                        #[trigger] self.characters@[a].0@ != #[trigger] self.characters@[b].0@ by {
                        assert(before[a].0@ != before[b].0@);
                    }
                    assert(self.characters@[i as int].0@ == name@);
                    lemma_found_after_prefix_full(self.characters@, name@, i as int, before);
                }
            },
            None => {
                self.characters.push((String::from_str(name), character));
                proof {
                    lemma_first_index(before, spec_key_named(name@));
                    assert forall|a: int, b: int| 0 <= a < b < self.characters@.len() implies
                        #[trigger] self.characters@[a].0@ != #[trigger] self.characters@[b].0@ by {
                        if b == before.len() {
                            assert(!spec_key_named(name@)(before[a]));
                        } else {
                            assert(before[a].0@ != before[b].0@);
                        }
                    }
                    let s = self.characters@;
                    assert forall|j: int| 0 <= j < before.len() implies !spec_key_named(name@)(#[trigger] s[j]) by {
                        assert(s[j] == before[j]);
                        assert(!spec_key_named(name@)(before[j]));
                    }
                    lemma_first_index_at(s, spec_key_named(name@), before.len() as int);
                }
            },
        }
    }

    /// Keeps a new character under `name` and puts it in play, unless the
    /// user already keeps `max` characters or more.
    pub fn create_character(&mut self, name: &str, character: Character, max: usize) -> (r: Result<(), CreateError>)
        requires
            spec_keys_distinct(old(self).characters@),
        ensures
            spec_keys_distinct(final(self).characters@),
            final(self).lang == old(self).lang,
            r is Err <==> old(self).characters@.len() >= max,
            r is Err ==> final(self).characters@ == old(self).characters@
                && final(self).active_character == old(self).active_character,
            r is Ok ==> (final(self).active_character matches Some(a) && a@ == name@),
            r is Ok ==> (spec_find_character(final(self).characters@, name@) matches Some(i)
                && final(self).characters@[i].1@ == character@),
    {
        if self.characters.len() >= max {
            return Err(CreateError::TooManyCharacters);
        }
        let ghost cv = character@;
        self.insert_character(name, character);
        proof {
            lemma_first_index(self.characters@, spec_key_named(name@));
        }
        self.active_character = Some(String::from_str(name));
        Ok(())
    }

    /// Drops the character kept under `name`; it is no longer in play.
    pub fn remove_character(&mut self, name: &str)
        requires
            spec_keys_distinct(old(self).characters@),
        ensures
            spec_keys_distinct(final(self).characters@),
            final(self).lang == old(self).lang,
            spec_find_character(final(self).characters@, name@) is None,
            match spec_find_character(old(self).characters@, name@) {
                Some(i) => final(self).characters@ == old(self).characters@.remove(i),
                None => final(self).characters@ == old(self).characters@,
            },
            final(self).active_character == (if old(self).active_character matches Some(a) && a@ == name@ {
                None
            } else {
                old(self).active_character
            }),
    {
        let ghost before = self.characters@;
        let ghost p = spec_key_named(name@);
        match self.find_character(name) {
            Some(i) => {
                self.characters.remove(i);
                proof {
                    lemma_first_index(before, p);
                    let s = self.characters@;
                    assert forall|a: int, b: int| 0 <= a < b < s.len() implies
                        #[trigger] s[a].0@ != #[trigger] s[b].0@ by {
                        let a0 = if a < i { a } else { a + 1 };
                        let b0 = if b < i { b } else { b + 1 };
                        assert(s[a] == before[a0]);
                        assert(s[b] == before[b0]);
                        assert(before[a0].0@ != before[b0].0@);
                    }
                    assert forall|j: int| 0 <= j < s.len() implies !p(#[trigger] s[j]) by {
                        let j0 = if j < i { j } else { j + 1 };
                        assert(s[j] == before[j0]);
                        if j0 != i {
                            if j0 < i {
                                assert(before[j0].0@ != before[i as int].0@);
                            } else {
                                assert(before[i as int].0@ != before[j0].0@);
                            }
                        }
                    }
                    lemma_first_index(s, p);
                }
            },
            None => {},
        }
        let clear = match &self.active_character {
            Some(a) => str_equal(a.as_str(), name),
            None => false,
        };
        if clear {
            self.active_character = None;
        }
    }

    /// Puts in play the character kept under `name`, by its own name.
    pub fn select_character(&mut self, name: &str) -> (r: Result<(), ActiveError>)
        ensures
            final(self).characters@ == old(self).characters@,
            final(self).lang == old(self).lang,
            match spec_find_character(old(self).characters@, name@) {
                Some(i) => r is Ok && (final(self).active_character matches Some(a)
                    && a@ == old(self).characters@[i].1.name@),
                None => r matches Err(ActiveError::CharacterNotFound(n)) && n@ == name@
                    && final(self).active_character == old(self).active_character,
            },
    {
        match self.find_character(name) {
            Some(i) => {
                let n = self.characters[i].1.name.clone();
                self.active_character = Some(n);
                Ok(())
            },
            None => Err(ActiveError::CharacterNotFound(String::from_str(name))),
        }
    }
}

/// A character just created is the one in play: the character in play is
/// found where its name keeps it.
pub proof fn lemma_created_is_active(s: Seq<(String, Character)>, active: Option<String>, name: Seq<char>)
    requires
        active matches Some(a) && a@ == name,
        spec_find_character(s, name) is Some,
    ensures
        spec_active_index(s, active) == Ok::<int, ()>(spec_find_character(s, name)->0),
{
}

/// A character put in play by `name` is the character in play, where it is
/// kept under its own name.
pub proof fn lemma_selected_is_active(s: Seq<(String, Character)>, name: Seq<char>, active: Option<String>)
    requires
        spec_find_character(s, name) matches Some(i) && s[i].1.name@ == s[i].0@,
        active matches Some(a) && a@ == s[spec_find_character(s, name)->0].1.name@,
    ensures
        spec_active_index(s, active) == Ok::<int, ()>(spec_find_character(s, name)->0),
{
    lemma_first_index(s, spec_key_named(name));
}

/// Once dropped, a character cannot be put in play by its name, and the
/// character in play, if any, is found under another name.
pub proof fn lemma_removed_not_selectable(s: Seq<(String, Character)>, active: Option<String>, name: Seq<char>)
    requires
        spec_find_character(s, name) is None,
        !(active matches Some(a) && a@ == name),
    ensures
        spec_active_index(s, active) matches Ok(i) ==> s[i].0@ != name,
{
    if let Ok(i) = spec_active_index(s, active) {
        lemma_first_index(s, spec_key_named(active->0@));
    }
}

/// A character whose key is at `i`, with the same keys before it as a
/// list where it is first, is found at `i`.
proof fn lemma_found_after_prefix_full(s: Seq<(String, Character)>, name: Seq<char>, i: int, before: Seq<(String, Character)>)
    requires
        0 <= i < s.len(),
        s.len() == before.len(),
        spec_find_character(before, name) == Some(i),
        forall|j: int| 0 <= j < i ==> s[j].0@ == before[j].0@,
        s[i].0@ == name,
    ensures
        spec_find_character(s, name) == Some(i),
{
    let p = spec_key_named(name);
    lemma_first_index(before, p);
    assert forall|j: int| 0 <= j < i implies !p(#[trigger] s[j]) by {
        assert(!p(before[j]));
    }
    lemma_first_index_at(s, p, i);
}

/// The group a command is listed under in the help.
#[derive(Debug, Clone, Copy, PartialEq, Eq, Structural)]
pub enum CommandCategory {
    Basic,
    Character,
    GM,
}

impl Default for CommandCategory {
    fn default() -> (r: Self)
        ensures
            r == CommandCategory::Basic,
    {
        CommandCategory::Basic
    }
}

/// How the help lists a command: its group and its short and long descriptions.
#[derive(Debug, Clone, Copy)]
pub struct CommandMeta {
    pub category: CommandCategory,
    pub short_desc: &'static str,
    pub long_desc: &'static str,
}

impl Default for CommandMeta {
    fn default() -> (r: Self)
        ensures
            r.category == CommandCategory::Basic,
            r.short_desc@.len() == 0,
            r.long_desc@.len() == 0,
    {
        proof { reveal_strlit(""); }
        CommandMeta { category: CommandCategory::Basic, short_desc: "", long_desc: "" }
    }
}

/// The name of a group of commands, as the help heads it.
pub open spec fn spec_category_name(c: CommandCategory) -> Seq<char> {
    match c {
        CommandCategory::Basic => "Basic"@,
        CommandCategory::Character => "Character"@,
        CommandCategory::GM => "GM"@,
    }
}

/// The help of one command: its name, then its short and long descriptions.
pub open spec fn spec_command_help(name: Seq<char>, meta: Option<CommandMeta>) -> Seq<char> {
    let (short, long) = match meta {
        Some(m) => (m.short_desc@, m.long_desc@),
        None => (Seq::<char>::empty(), Seq::<char>::empty()),
    };
    "`/"@ + name + "`\n\n"@ + short + "\n\n"@ + long
}

/// The help of one command.
pub fn command_help(name: &str, meta: Option<CommandMeta>) -> (r: String)
    ensures
        r@ == spec_command_help(name@, meta),
{
    let mut s = String::from_str("`/");
    s.append(name);
    s.append("`\n\n");
    match meta {
        Some(m) => {
            s.append(m.short_desc);
            s.append("\n\n");
            s.append(m.long_desc);
        },
        None => {
            s.append("\n\n");
        },
    }
    s
}

/// The position of the command named `name`, up to ASCII case.
pub fn find_command(commands: &Vec<(String, Option<CommandMeta>)>, name: &str) -> (r: Option<usize>)
    ensures
        match r {
            Some(i) => i < commands@.len() && spec_eq_ignore_case(commands@[i as int].0@, name@)
                && forall|j: int| 0 <= j < i ==> !spec_eq_ignore_case(#[trigger] commands@[j].0@, name@),
            None => forall|j: int| 0 <= j < commands@.len() ==> !spec_eq_ignore_case(#[trigger] commands@[j].0@, name@),
        },
{
    let mut i: usize = 0;
    while i < commands.len()
        invariant
            i <= commands@.len(),
            forall|j: int| 0 <= j < i ==> !spec_eq_ignore_case(#[trigger] commands@[j].0@, name@),
        decreases commands@.len() - i,
    {
        if eq_ignore_case(commands[i].0.as_str(), name) {
            return Some(i);
        }
        i += 1;
    }
    None
}

/// The rows of the help of a group: each command of the group, in order,
/// with its short description.
pub open spec fn spec_help_rows(commands: Seq<(String, Option<CommandMeta>)>, category: CommandCategory) -> Seq<Seq<Seq<char>>>
    decreases commands.len(),
{
    if commands.len() == 0 {
        Seq::empty()
    } else {
        let rest = spec_help_rows(commands.drop_last(), category);
        match commands.last().1 {
            Some(m) => if m.category == category {
                rest.push(seq!["/"@ + commands.last().0@, m.short_desc@])
            } else {
                rest
            },
            None => rest,
        }
    }
}

/// The help of a group of commands: its heading, then a table of its
/// commands.
pub open spec fn spec_help_text(commands: Seq<(String, Option<CommandMeta>)>, category: CommandCategory) -> Seq<char> {
    "**"@ + spec_category_name(category) + " Commands**\n"@ + "```text\n"@
        + spec_table_text(spec_help_rows(commands, category), Seq::empty(), Seq::empty()) + "```"@
}

/// The help of a group of commands.
pub fn help_text(commands: &Vec<(String, Option<CommandMeta>)>, category: CommandCategory) -> (r: String)
    ensures
        r@ == spec_help_text(commands@, category),
{
    let mut rows: Vec<Vec<String>> = Vec::new();
    let mut i: usize = 0;
    proof {
        assert(commands@.take(0) =~= Seq::<(String, Option<CommandMeta>)>::empty());
    }
    while i < commands.len()
        invariant
            i <= commands@.len(),
            crate::table::spec_records_view(rows@) == spec_help_rows(commands@.take(i as int), category),
        decreases commands@.len() - i,
    {
        proof {
            assert(commands@.take(i as int + 1).drop_last() =~= commands@.take(i as int));
            assert(commands@.take(i as int + 1).last() == commands@[i as int]);
        }
        match commands[i].1 {
            Some(m) => {
                if m.category == category {
                    let mut cell = String::from_str("/");
                    cell.append(commands[i].0.as_str());
                    let row = vec![cell, String::from_str(m.short_desc)];
                    assert(row@.map_values(|c: String| c@) =~= seq!["/"@ + commands@[i as int].0@, m.short_desc@]);
                    let ghost before = rows@;
                    rows.push(row);
                    assert(crate::table::spec_records_view(rows@) =~= crate::table::spec_records_view(before).push(
                        seq!["/"@ + commands@[i as int].0@, m.short_desc@]));
                }
            },
            None => {},
        }
        i += 1;
    }
    proof {
        assert(commands@.take(commands@.len() as int) =~= commands@);
    }
    let mut out = String::from_str("**");
    let name = match category {
        CommandCategory::Basic => "Basic",
        CommandCategory::Character => "Character",
        CommandCategory::GM => "GM",
    };
    out.append(name);
    out.append(" Commands**\n");
    out.append("```text\n");
    let table = render_table(rows, Vec::new(), Vec::new());
    out.append(table.as_str());
    out.append("```");
    out
}

} // verus!
