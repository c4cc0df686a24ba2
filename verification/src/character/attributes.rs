//! The eight characteristics of a character and the values derived from them.
use crate::locale::{locale_entry_by_tag, spec_entry_equals, spec_locale_entry, LocaleEntry, LocaleTag};
use crate::roller::success_level::{div_trunc, spec_div_trunc};
use crate::utils::{self, spec_first_index};
use vstd::prelude::*;

verus! {

/// A characteristic: its name in both languages and its value.
#[derive(Debug)]
pub struct Attribute {
    pub name: LocaleEntry,
    pub value: i32,
}

impl View for Attribute {
    type V = ((Seq<char>, Seq<char>), i32);

    open spec fn view(&self) -> ((Seq<char>, Seq<char>), i32) {
        (self.name@, self.value)
    }
}

impl Clone for Attribute {
    fn clone(&self) -> (r: Self)
        ensures
            r@ == self@,
    {
        Attribute { name: self.name.clone(), value: self.value }
    }
}

impl Default for Attribute {
    /// A characteristic with no name and the value 0.
    fn default() -> (r: Self)
        ensures
            r@ == ((Seq::<char>::empty(), Seq::<char>::empty()), 0i32),
    {
        Attribute { name: LocaleEntry::default(), value: 0 }
    }
}

impl Attribute {
    pub fn new(text: LocaleEntry, value: i32) -> (r: Self)
        ensures
            r@ == (text@, value),
    {
        Attribute { name: text, value }
    }
}

/// The characteristics of a character.
#[derive(Debug)]
pub struct Attributes {
    pub strength: Attribute,
    pub constitution: Attribute,
    pub size: Attribute,
    pub dexterity: Attribute,
    pub appearance: Attribute,
    pub intelligence: Attribute,
    pub power: Attribute,
    pub education: Attribute,
}

impl View for Attributes {
    /// The characteristics in the order STR, CON, SIZ, DEX, APP, INT, POW, EDU.
    type V = Seq<((Seq<char>, Seq<char>), i32)>;

    open spec fn view(&self) -> Seq<((Seq<char>, Seq<char>), i32)> {
        seq![
            self.strength@,
            self.constitution@,
            self.size@,
            self.dexterity@,
            self.appearance@,
            self.intelligence@,
            self.power@,
            self.education@,
        ]
    }
}

impl Clone for Attributes {
    fn clone(&self) -> (r: Self)
        ensures
            r@ == self@,
    {
        Attributes {
            strength: self.strength.clone(),
            constitution: self.constitution.clone(),
            size: self.size.clone(),
            dexterity: self.dexterity.clone(),
            appearance: self.appearance.clone(),
            intelligence: self.intelligence.clone(),
            power: self.power.clone(),
            education: self.education.clone(),
        }
    }
}

impl Default for Attributes {
    /// Eight characteristics with no name and the value 0.
    fn default() -> (r: Self)
        ensures
            r@ == Seq::new(8, |i: int| ((Seq::<char>::empty(), Seq::<char>::empty()), 0i32)),
    {
        let r = Attributes {
            strength: Attribute::default(),
            constitution: Attribute::default(),
            size: Attribute::default(),
            dexterity: Attribute::default(),
            appearance: Attribute::default(),
            intelligence: Attribute::default(),
            power: Attribute::default(),
            education: Attribute::default(),
        };
        assert(r@ =~= Seq::new(8, |i: int| ((Seq::<char>::empty(), Seq::<char>::empty()), 0i32)));
        r
    }
}

/// The tags of the characteristics, in the order of the view.
pub open spec fn spec_attribute_tags() -> Seq<LocaleTag> {
    seq![
        LocaleTag::Strength,
        LocaleTag::Constitution,
        LocaleTag::Size,
        LocaleTag::Dexterity,
        LocaleTag::Appearance,
        LocaleTag::Intelligence,
        LocaleTag::Power,
        LocaleTag::Education,
    ]
}

/// A characteristic named `name`, up to ASCII case.
pub open spec fn spec_attribute_named(name: Seq<char>) -> spec_fn(((Seq<char>, Seq<char>), i32)) -> bool {
    |e: ((Seq<char>, Seq<char>), i32)| spec_entry_equals(e.0, name)
}

/// The first characteristic whose name equals `name` up to ASCII case.
pub open spec fn spec_attribute_index(a: Seq<((Seq<char>, Seq<char>), i32)>, name: Seq<char>) -> Option<int> {
    spec_first_index(a, spec_attribute_named(name))
}

/// Build from the sum of strength and size.
pub open spec fn spec_build(str_siz: int) -> int {
    if 0 <= str_siz <= 64 {
        -2
    } else if 65 <= str_siz <= 84 {
        -1
    } else if 85 <= str_siz <= 124 {
        0
    } else if 125 <= str_siz <= 164 {
        1
    } else if 165 <= str_siz <= 204 {
        2
    } else {
        2 + spec_div_trunc(str_siz - 204 + 79, 80)
    }
}

/// Movement rate from strength, dexterity and size.
pub open spec fn spec_move_rate(str: int, dex: int, siz: int) -> int {
    if (if str >= dex { str } else { dex }) < siz {
        7
    } else if (if str <= dex { str } else { dex }) > siz {
        9
    } else {
        8
    }
}

/// Move rate by how strength and dexterity compare with size: 7 when both
/// are below size, 9 when both are above it, 8 otherwise.
pub proof fn lemma_move_rate_by_size(str: int, dex: int, siz: int)
    ensures
        spec_move_rate(str, dex, siz) == 7 <==> (str < siz && dex < siz),
        spec_move_rate(str, dex, siz) == 9 <==> (str > siz && dex > siz),
        spec_move_rate(str, dex, siz) == 8 <==> !(str < siz && dex < siz) && !(str > siz && dex > siz),
{
}

/// Hit points from constitution and size; pulp heroes divide by 5, not 10.
pub open spec fn spec_hp(con: int, siz: int, pulp: bool) -> int {
    spec_div_trunc(con + siz, if pulp { 5 } else { 10 })
}

impl Attributes {
    /// Characteristics with the given values, named by the locale table.
    pub fn new(str: i32, con: i32, siz: i32, dex: i32, app: i32, intl: i32, pow: i32, edu: i32) -> (r: Self)
        ensures
            forall|i: int| 0 <= i < 8 ==> Some((#[trigger] r@[i]).0) == spec_locale_entry(spec_attribute_tags()[i]),
            r.strength.value == str,
            r.constitution.value == con,
            r.size.value == siz,
            r.dexterity.value == dex,
            r.appearance.value == app,
            r.intelligence.value == intl,
            r.power.value == pow,
            r.education.value == edu,
    {
        let r = Attributes {
            strength: Attribute::new(locale_entry_by_tag(LocaleTag::Strength), str),
            constitution: Attribute::new(locale_entry_by_tag(LocaleTag::Constitution), con),
            size: Attribute::new(locale_entry_by_tag(LocaleTag::Size), siz),
            dexterity: Attribute::new(locale_entry_by_tag(LocaleTag::Dexterity), dex),
            appearance: Attribute::new(locale_entry_by_tag(LocaleTag::Appearance), app),
            intelligence: Attribute::new(locale_entry_by_tag(LocaleTag::Intelligence), intl),
            power: Attribute::new(locale_entry_by_tag(LocaleTag::Power), pow),
            education: Attribute::new(locale_entry_by_tag(LocaleTag::Education), edu),
        };
        assert forall|i: int| 0 <= i < 8 implies Some((#[trigger] r@[i]).0) == spec_locale_entry(spec_attribute_tags()[i]) by {
            if i == 0 {} else if i == 1 {} else if i == 2 {} else if i == 3 {} else if i == 4 {}
            else if i == 5 {} else if i == 6 {} else {}
        }
        r
    }

    /// The first characteristic (in the order of the view) whose name
    /// equals `attribute_name`, ignoring ASCII case.
    pub fn get(&self, attribute_name: &str) -> (r: Option<&Attribute>)
        ensures
            r is None <==> spec_attribute_index(self@, attribute_name@) is None,
            r matches Some(a) ==> a@ == self@[spec_attribute_index(self@, attribute_name@)->0],
    {
        let ghost a = self@;
        let ghost n = attribute_name@;
        if self.strength.name.equals_ignore_case(attribute_name) {
            proof { lemma_first_index(a, n, 0); }
            Some(&self.strength)
        } else if self.constitution.name.equals_ignore_case(attribute_name) {
            proof { lemma_first_index(a, n, 1); }
            Some(&self.constitution)
        } else if self.size.name.equals_ignore_case(attribute_name) {
            proof { lemma_first_index(a, n, 2); }
            Some(&self.size)
        } else if self.dexterity.name.equals_ignore_case(attribute_name) {
            proof { lemma_first_index(a, n, 3); }
            Some(&self.dexterity)
        } else if self.appearance.name.equals_ignore_case(attribute_name) {
            proof { lemma_first_index(a, n, 4); }
            Some(&self.appearance)
        } else if self.intelligence.name.equals_ignore_case(attribute_name) {
            proof { lemma_first_index(a, n, 5); }
            Some(&self.intelligence)
        } else if self.power.name.equals_ignore_case(attribute_name) {
            proof { lemma_first_index(a, n, 6); }
            Some(&self.power)
        } else if self.education.name.equals_ignore_case(attribute_name) {
            proof { lemma_first_index(a, n, 7); }
            Some(&self.education)
        } else {
            proof { lemma_no_index(a, n); }
            None
        }
    }

    /// The first characteristic (in the order of the view) whose name
    /// equals `attribute_name`, ignoring ASCII case, to be changed in place.
    pub fn get_mut(&mut self, attribute_name: &str) -> (r: Option<&mut Attribute>)
        ensures
            r is None <==> spec_attribute_index(old(self)@, attribute_name@) is None,
            r is None ==> final(self)@ == old(self)@,
            r matches Some(a) ==> {
                let i = spec_attribute_index(old(self)@, attribute_name@)->0;
                &&& (*a)@ == old(self)@[i]
                &&& final(self)@ == old(self)@.update(i, (*final(a))@)
            },
    {
        let ghost a = self@;
        let ghost n = attribute_name@;
        if self.strength.name.equals_ignore_case(attribute_name) {
            proof { lemma_first_index(a, n, 0); }
            Some(&mut self.strength)
        } else if self.constitution.name.equals_ignore_case(attribute_name) {
            proof { lemma_first_index(a, n, 1); }
            Some(&mut self.constitution)
        } else if self.size.name.equals_ignore_case(attribute_name) {
            proof { lemma_first_index(a, n, 2); }
            Some(&mut self.size)
        } else if self.dexterity.name.equals_ignore_case(attribute_name) {
            proof { lemma_first_index(a, n, 3); }
            Some(&mut self.dexterity)
        } else if self.appearance.name.equals_ignore_case(attribute_name) {
            proof { lemma_first_index(a, n, 4); }
            Some(&mut self.appearance)
        } else if self.intelligence.name.equals_ignore_case(attribute_name) {
            proof { lemma_first_index(a, n, 5); }
            Some(&mut self.intelligence)
        } else if self.power.name.equals_ignore_case(attribute_name) {
            proof { lemma_first_index(a, n, 6); }
            Some(&mut self.power)
        } else if self.education.name.equals_ignore_case(attribute_name) {
            proof { lemma_first_index(a, n, 7); }
            Some(&mut self.education)
        } else {
            proof { lemma_no_index(a, n); }
            None
        }
    }

    pub fn calculate_build(&self) -> (r: i32)
        requires
            i32::MIN + 204 <= self.strength.value + self.size.value <= i32::MAX,
        ensures
            r == spec_build(self.strength.value + self.size.value),
    {
        let str_siz = self.strength.value + self.size.value;
        if 0 <= str_siz && str_siz <= 64 {
            -2
        } else if 65 <= str_siz && str_siz <= 84 {
            -1
        } else if 85 <= str_siz && str_siz <= 124 {
            0
        } else if 125 <= str_siz && str_siz <= 164 {
            1
        } else if 165 <= str_siz && str_siz <= 204 {
            2
        } else {
            2 + div_trunc(str_siz - 204 + 79, 80)
        }
    }

    pub fn calculate_move_rate(&self) -> (r: i32)
        ensures
            r == spec_move_rate(self.strength.value as int, self.dexterity.value as int, self.size.value as int),
            r == 7 <==> self.strength.value < self.size.value && self.dexterity.value < self.size.value,
            r == 9 <==> self.strength.value > self.size.value && self.dexterity.value > self.size.value,
    {
        proof {
            lemma_move_rate_by_size(self.strength.value as int, self.dexterity.value as int, self.size.value as int);
        }
        let hi = if self.strength.value >= self.dexterity.value { self.strength.value } else { self.dexterity.value };
        let lo = if self.strength.value <= self.dexterity.value { self.strength.value } else { self.dexterity.value };
        if hi < self.size.value {
            7
        } else if lo > self.size.value {
            9
        } else {
            8
        }
    }

    pub fn calculate_hp(&self, pulp: bool) -> (r: i32)
        requires
            i32::MIN <= self.constitution.value + self.size.value <= i32::MAX,
        ensures
            r == spec_hp(self.constitution.value as int, self.size.value as int, pulp),
    {
        let divider = if pulp { 5 } else { 10 };
        div_trunc(self.constitution.value + self.size.value, divider)
    }

    pub fn calculate_sanity(&self) -> (r: i32)
        ensures
            r == self.power.value,
    {
        self.power.value
    }

    pub fn calculate_magic(&self) -> (r: i32)
        ensures
            r == spec_div_trunc(self.power.value as int, 5),
    {
        div_trunc(self.power.value, 5)
    }
}

proof fn lemma_first_index(a: Seq<((Seq<char>, Seq<char>), i32)>, n: Seq<char>, i: int)
    requires
        0 <= i < a.len(),
        spec_entry_equals(a[i].0, n),
        forall|j: int| 0 <= j < i ==> !spec_entry_equals(#[trigger] a[j].0, n),
    ensures
        spec_attribute_index(a, n) == Some(i),
{
    let p = spec_attribute_named(n);
    assert forall|j: int| 0 <= j < i implies !p(#[trigger] a[j]) by {}
    utils::lemma_first_index_at(a, p, i);
}

proof fn lemma_no_index(a: Seq<((Seq<char>, Seq<char>), i32)>, n: Seq<char>)
    requires
        forall|j: int| 0 <= j < a.len() ==> !spec_entry_equals(#[trigger] a[j].0, n),
    ensures
        spec_attribute_index(a, n) is None,
{
    let p = spec_attribute_named(n);
    assert forall|j: int| 0 <= j < a.len() implies !p(#[trigger] a[j]) by {}
    utils::lemma_first_index(a, p);
}

/// What the first characteristic of a name is: it has the name and none
/// before it does.
pub proof fn lemma_attribute_index(a: Seq<((Seq<char>, Seq<char>), i32)>, n: Seq<char>)
    ensures
        spec_attribute_index(a, n) matches Some(i) ==> {
            &&& 0 <= i < a.len()
            &&& spec_entry_equals(a[i].0, n)
            &&& forall|j: int| 0 <= j < i ==> !spec_entry_equals(#[trigger] a[j].0, n)
        },
{
    let p = spec_attribute_named(n);
    utils::lemma_first_index(a, p);
    if let Some(i) = spec_attribute_index(a, n) {
        assert forall|j: int| 0 <= j < i implies !spec_entry_equals(#[trigger] a[j].0, n) by {
            assert(!p(a[j]));
        }
    }
}

/// A characteristic of the name with none of it before is the first.
pub proof fn lemma_attribute_index_at(a: Seq<((Seq<char>, Seq<char>), i32)>, n: Seq<char>, i: int)
    requires
        0 <= i < a.len(),
        spec_entry_equals(a[i].0, n),
        forall|j: int| 0 <= j < i ==> !spec_entry_equals(#[trigger] a[j].0, n),
    ensures
        spec_attribute_index(a, n) == Some(i),
{
    lemma_first_index(a, n, i);
}

/// Build never falls as strength and size grow.
pub proof fn lemma_build_monotonic(x: int, y: int)
    requires
        0 <= x <= y,
    ensures
        spec_build(x) <= spec_build(y),
{
    if x > 204 {
        assert(spec_div_trunc(x - 204 + 79, 80) <= spec_div_trunc(y - 204 + 79, 80)) by (nonlinear_arith)
            requires 0 <= x - 125 <= y - 125, spec_div_trunc(x - 125, 80) == (x - 125) / 80,
                spec_div_trunc(y - 125, 80) == (y - 125) / 80;
    } else if y > 204 {
        assert(spec_div_trunc(y - 204 + 79, 80) >= 1) by (nonlinear_arith)
            requires y - 125 >= 80, spec_div_trunc(y - 125, 80) == (y - 125) / 80;
    }
}

/// A pulp hero has no fewer hit points than an ordinary character.
pub proof fn lemma_pulp_hp_at_least(con: int, siz: int)
    requires
        con + siz >= 0,
    ensures
        spec_hp(con, siz, true) >= spec_hp(con, siz, false),
{
    assert((con + siz) / 5 >= (con + siz) / 10) by (nonlinear_arith)
        requires con + siz >= 0;
}

} // verus!
