//! The talents of a pulp hero.
use crate::character::{Character, CharacterView};
use crate::locale::{locale_entry_by_tag, locale_tag_by_str, spec_locale_entry, spec_tag_by_str, LocaleEntry};
use crate::text::spec_contains_ignore_case;
use crate::utils::{lemma_first_index, lemma_first_index_at, lemma_first_index_full, lemma_first_index_step, spec_first_index};
use vstd::prelude::*;

verus! {

/// A talent whose name, in either language, holds `text` up to ASCII case.
pub open spec fn spec_talent_named(text: Seq<char>) -> spec_fn((Seq<char>, Seq<char>)) -> bool {
    |t: (Seq<char>, Seq<char>)| spec_contains_ignore_case(t.1, text) || spec_contains_ignore_case(t.0, text)
}

/// No talent of the character is named so.
#[derive(Debug, Clone, Copy, PartialEq, Eq, Structural)]
pub enum TalentError {
    NoSuchTalent,
}

proof fn lemma_found_after_prefix<T>(s: Seq<T>, p: spec_fn(T) -> bool, i: int)
    requires
        0 <= i < s.len(),
        spec_first_index(s.take(i), p) is None,
        p(s[i]),
    ensures
        spec_first_index(s, p) == Some(i),
{
    lemma_first_index(s.take(i), p);
    assert forall|j: int| 0 <= j < i implies !p(#[trigger] s[j]) by {
        assert(s.take(i)[j] == s[j]);
    }
    lemma_first_index_at(s, p, i);
}

impl Character {
    /// Gives the character the talent that `talent` names.
    pub fn add_pulp_talent(&mut self, talent: &str)
        requires
            spec_tag_by_str(talent@) is Some,
        ensures
            final(self)@ == (CharacterView {
                pulp_talents: old(self)@.pulp_talents.push(spec_locale_entry(spec_tag_by_str(talent@)->0)->0),
                ..old(self)@
            }),
    {
        let tag = match locale_tag_by_str(talent) {
            Some(t) => t,
            None => {
                return;
            },
        };
        let entry = locale_entry_by_tag(tag);
        let ghost before = self.pulp_talents@;
        self.pulp_talents.push(entry);
        assert(self.pulp_talents@.map_values(|e: LocaleEntry| e@) =~= before.map_values(|e: LocaleEntry| e@).push(entry@));
    }

    /// Takes away the first talent whose name holds `talent`.
    pub fn remove_pulp_talent(&mut self, talent: &str) -> (r: Result<(), TalentError>)
        ensures
            match spec_first_index(old(self)@.pulp_talents, spec_talent_named(talent@)) {
                Some(i) => r is Ok && final(self)@ == (CharacterView {
                    pulp_talents: old(self)@.pulp_talents.remove(i),
                    ..old(self)@
                }),
                None => r == Err::<(), TalentError>(TalentError::NoSuchTalent) && final(self)@ == old(self)@,
            },
    {
        let ghost views = self@.pulp_talents;
        let ghost p = spec_talent_named(talent@);
        let mut i: usize = 0;
        while i < self.pulp_talents.len()
            invariant
                views == self@.pulp_talents,
                self@ == old(self)@,
                p == spec_talent_named(talent@),
                i <= views.len(),
                spec_first_index(views.take(i as int), p) is None,
            decreases views.len() - i,
        {
            proof {
                lemma_first_index_step(views, p, i as int);
            }
            if self.pulp_talents[i].partial_match_ignore_case(talent) {
                proof {
                    assert(views[i as int] == self.pulp_talents@[i as int]@);
                    lemma_found_after_prefix(views, p, i as int);
                }
                let ghost before = self.pulp_talents@;
                self.pulp_talents.remove(i);
                assert(self.pulp_talents@.map_values(|e: LocaleEntry| e@) =~= before.map_values(|e: LocaleEntry| e@).remove(i as int));
                assert(self@ == (CharacterView { pulp_talents: views.remove(i as int), ..old(self)@ }));
                return Ok(());
            }
            i += 1;
        }
        proof {
            lemma_first_index_full(views, p);
        }
        Err(TalentError::NoSuchTalent)
    }
}

} // verus!
