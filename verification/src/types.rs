//! Plain domain data: character traits, flag sets, experience and action
//! ratings, and the preview records handed to listing callers.

use vstd::prelude::*;
use crate::description::Description;

verus! {

/// A character's playbook.
#[derive(Debug, Clone, Copy, PartialEq, Eq, Hash, Structural)]
pub enum Class {
    Cutter,
    Hound,
    Leech,
    Lurk,
    Slide,
    Spider,
    Whisper,
}

/// Where a character grew up.
#[derive(Debug, Clone, Copy, PartialEq, Eq, Hash, Structural)]
pub enum Heritage {
    Akoros,
    TheDaggerIsles,
    Iruvia,
    Severos,
    Skovlan,
    Tycsheros,
}

/// A character's former life.
#[derive(Debug, Clone, Copy, PartialEq, Eq, Hash, Structural)]
pub enum Background {
    Academic,
    Labor,
    Law,
    Trade,
    Military,
    Noble,
    Underworld,
}

/// A character's vice.
#[derive(Debug, Clone, Copy, PartialEq, Eq, Hash, Structural)]
pub enum Vice {
    Faith,
    Gambling,
    Luxury,
    Obligation,
    Pleasure,
    Stupor,
    Weird,
}

/// One permanent trauma condition.
#[derive(Debug, Clone, Copy, PartialEq, Eq, Hash, Structural)]
pub enum Trauma {
    Cold,
    Haunted,
    Obsessed,
    Paranoid,
    Relentless,
    Soft,
    Unstable,
    Vicious,
}

/// How much a character is carrying.
#[derive(Debug, Clone, Copy, PartialEq, Eq, Hash, Structural)]
pub enum Load {
    Light,
    Medium,
    Heavy,
}

/// A crew's line of work.
#[derive(Debug, Clone, Copy, PartialEq, Eq, Hash, Structural)]
pub enum CrewSpecialty {
    Assassins,
    Bravos,
    Cult,
    Hawkers,
    Smugglers,
    Shadows,
}

/// The number of set bits in `b`.
pub open spec fn popcount(b: nat) -> nat
    decreases b,
{
    if b == 0 {
        0
    } else {
        (b % 2) + popcount(b / 2)
    }
}

/// A set bit count never exceeds the value itself.
pub proof fn lemma_popcount_le(b: nat)
    ensures
        popcount(b) <= b,
    decreases b,
{
    if b != 0 {
        lemma_popcount_le(b / 2);
    }
}

/// A type whose value is a set of single-bit flags that can be counted.
pub trait BitCount {
    /// The mathematical number of flags that are set.
    spec fn spec_bit_count(&self) -> nat;

    /// Counts the flags that are set.
    fn count_bits(&self) -> (r: u32)
        ensures
            r as nat == self.spec_bit_count(),
    ;
}

/// Counts the set bits of a 16-bit word.
fn popcount_u16(x: u16) -> (r: u32)
    ensures
        r as nat == popcount(x as nat),
{
    let mut v: u16 = x;
    let mut c: u32 = 0;
    proof {
        lemma_popcount_le(x as nat);
    }
    while v != 0
        invariant
            c + popcount(v as nat) == popcount(x as nat),
            popcount(x as nat) <= x as nat,
        decreases v,
    {
        c = c + (v % 2) as u32;
        v = v / 2;
    }
    c
}

/// The trauma conditions a character has acquired, as a bit set.
#[derive(Debug, Clone, Copy, PartialEq, Eq, Hash, Structural)]
pub struct TraumaFlags {
    pub bits: u8,
}

impl TraumaFlags {
    /// No trauma at all.
    pub fn empty() -> (r: Self)
        ensures
            r.bits == 0,
    {
        TraumaFlags { bits: 0 }
    }

    /// The raw bit pattern.
    pub fn bits(&self) -> (r: u8)
        ensures
            r == self.bits,
    {
        self.bits
    }

    /// The single-bit pattern standing for one trauma condition.
    pub fn from_trauma(t: Trauma) -> (r: Self)
        ensures
            r.bits == Self::trauma_bit(t),
    {
        match t {
            Trauma::Cold => TraumaFlags { bits: 1 },
            Trauma::Haunted => TraumaFlags { bits: 2 },
            Trauma::Obsessed => TraumaFlags { bits: 4 },
            Trauma::Paranoid => TraumaFlags { bits: 8 },
            Trauma::Relentless => TraumaFlags { bits: 16 },
            Trauma::Soft => TraumaFlags { bits: 32 },
            Trauma::Unstable => TraumaFlags { bits: 64 },
            Trauma::Vicious => TraumaFlags { bits: 128 },
        }
    }

    /// Which bit marks each trauma condition.
    pub open spec fn trauma_bit(t: Trauma) -> u8 {
        match t {
            Trauma::Cold => 1,
            Trauma::Haunted => 2,
            Trauma::Obsessed => 4,
            Trauma::Paranoid => 8,
            Trauma::Relentless => 16,
            Trauma::Soft => 32,
            Trauma::Unstable => 64,
            Trauma::Vicious => 128,
        }
    }
}

impl BitCount for TraumaFlags {
    open spec fn spec_bit_count(&self) -> nat {
        popcount(self.bits as nat)
    }

    fn count_bits(&self) -> (r: u32)
        ensures
            r as nat == self.spec_bit_count(),
    {
        popcount_u16(self.bits as u16)
    }
}

/// Which armor boxes a character has ticked, as a bit set.
/// Only the three low bits are meaningful.
#[derive(Debug, Clone, Copy, PartialEq, Eq, Hash, Structural)]
pub struct ArmorFlags {
    pub bits: u8,
}

impl ArmorFlags {
    /// The bit marking ordinary armor.
    pub fn armor() -> (r: Self)
        ensures
            r.bits == 1,
    {
        ArmorFlags { bits: 1 }
    }

    /// The bit marking heavy armor.
    pub fn heavy() -> (r: Self)
        ensures
            r.bits == 2,
    {
        ArmorFlags { bits: 2 }
    }

    /// The bit marking special armor.
    pub fn special() -> (r: Self)
        ensures
            r.bits == 4,
    {
        ArmorFlags { bits: 4 }
    }

    /// No armor box ticked.
    pub fn empty() -> (r: Self)
        ensures
            r.bits == 0,
    {
        ArmorFlags { bits: 0 }
    }

    /// The raw bit pattern.
    pub fn bits(&self) -> (r: u8)
        ensures
            r == self.bits,
    {
        self.bits
    }
}

impl BitCount for ArmorFlags {
    open spec fn spec_bit_count(&self) -> nat {
        popcount(self.bits as nat)
    }

    fn count_bits(&self) -> (r: u32)
        ensures
            r as nat == self.spec_bit_count(),
    {
        popcount_u16(self.bits as u16)
    }
}

/// Which standard items a character carries, as a bit set.
#[derive(Debug, Clone, Copy, PartialEq, Eq, Hash, Structural)]
pub struct Items {
    pub bits: u16,
}

impl Items {
    /// Carrying nothing.
    pub fn empty() -> (r: Self)
        ensures
            r.bits == 0,
    {
        Items { bits: 0 }
    }

    /// The raw bit pattern.
    pub fn bits(&self) -> (r: u16)
        ensures
            r == self.bits,
    {
        self.bits
    }

    /// The item set encoded by a raw bit pattern.
    pub fn from_bits(bits: u16) -> (r: Self)
        ensures
            r.bits == bits,
    {
        Items { bits }
    }
}

impl BitCount for Items {
    open spec fn spec_bit_count(&self) -> nat {
        popcount(self.bits as nat)
    }

    fn count_bits(&self) -> (r: u32)
        ensures
            r as nat == self.spec_bit_count(),
    {
        popcount_u16(self.bits)
    }
}

/// Experience tracks: one per playbook plus one per attribute.
#[derive(Debug, Clone, Copy, PartialEq, Eq, Structural)]
pub struct XP {
    pub playbook: u8,
    pub insight: u8,
    pub prowess: u8,
    pub resolve: u8,
}

/// A registered account, as other components see it: the secret stays in
/// the credential store.
#[derive(Debug, PartialEq)]
pub struct User {
    pub username: String,
}

impl View for User {
    type V = Seq<char>;

    open spec fn view(&self) -> Seq<char> {
        self.username@
    }
}

impl Clone for User {
    fn clone(&self) -> (r: Self)
        ensures
            r@ == self@,
    {
        User { username: self.username.clone() }
    }
}

/// The harm a character carries: two level-one wounds, two level-two
/// wounds, and one level-three wound.
#[derive(Debug, PartialEq)]
pub struct Harm(pub [String; 2], pub [String; 2], pub String);

/// The mathematical value of a [`Harm`].
#[verifier::ext_equal]
pub struct HarmV {
    pub lesser: Seq<Seq<char>>,
    pub moderate: Seq<Seq<char>>,
    pub severe: Seq<char>,
}

impl View for Harm {
    type V = HarmV;

    open spec fn view(&self) -> HarmV {
        HarmV {
            lesser: self.0@.map_values(|s: String| s@),
            moderate: self.1@.map_values(|s: String| s@),
            severe: self.2@,
        }
    }
}

impl Clone for Harm {
    fn clone(&self) -> (r: Self)
        ensures
            r@.lesser =~= self@.lesser,
            r@.moderate =~= self@.moderate,
            r@.severe == self@.severe,
    {
        let r = Harm(
            [self.0[0].clone(), self.0[1].clone()],
            [self.1[0].clone(), self.1[1].clone()],
            self.2.clone(),
        );
        proof {
            assert(r@.lesser =~= self@.lesser);
            assert(r@.moderate =~= self@.moderate);
        }
        r
    }
}

impl Default for Harm {
    /// A character starts unhurt: every harm slot is empty text.
    fn default() -> (r: Self)
        ensures
            r@.lesser =~= seq![Seq::<char>::empty(), Seq::<char>::empty()],
            r@.moderate =~= seq![Seq::<char>::empty(), Seq::<char>::empty()],
            r@.severe == Seq::<char>::empty(),
    {
        Harm([String::new(), String::new()], [String::new(), String::new()], String::new())
    }
}

/// The people a character leans on and the people after them.
#[derive(Debug, PartialEq)]
pub struct Contacts {
    pub friends: Vec<String>,
    pub rivals: Vec<String>,
}

/// The mathematical value of a [`Contacts`].
#[verifier::ext_equal]
pub struct ContactsV {
    pub friends: Seq<Seq<char>>,
    pub rivals: Seq<Seq<char>>,
}

impl View for Contacts {
    type V = ContactsV;

    open spec fn view(&self) -> ContactsV {
        ContactsV {
            friends: self.friends@.map_values(|s: String| s@),
            rivals: self.rivals@.map_values(|s: String| s@),
        }
    }
}

/// A crew, with the single privileged member named by `dm_id`.
#[derive(Debug, PartialEq)]
pub struct Crew {
    pub id: i32,
    pub name: String,
    pub specialty: CrewSpecialty,
    pub dm_id: String,
}

/// The mathematical value of a [`Crew`].
pub struct CrewV {
    pub id: i32,
    pub name: Seq<char>,
    pub specialty: CrewSpecialty,
    pub dm_id: Seq<char>,
}

impl View for Crew {
    type V = CrewV;

    open spec fn view(&self) -> CrewV {
        CrewV { id: self.id, name: self.name@, specialty: self.specialty, dm_id: self.dm_id@ }
    }
}

impl Clone for Crew {
    fn clone(&self) -> (r: Self)
        ensures
            r@ == self@,
    {
        Crew {
            id: self.id,
            name: self.name.clone(),
            specialty: self.specialty,
            dm_id: self.dm_id.clone(),
        }
    }
}

/// What a crew listing shows of one crew.
#[derive(Debug, PartialEq)]
pub struct CrewPreview {
    pub id: i32,
    pub name: String,
    pub specialty: CrewSpecialty,
    pub dm_name: String,
    pub player_count: usize,
}

/// The mathematical value of a [`CrewPreview`].
#[verifier::ext_equal]
pub struct CrewPreviewV {
    pub id: i32,
    pub name: Seq<char>,
    pub specialty: CrewSpecialty,
    pub dm_name: Seq<char>,
    pub player_count: nat,
}

impl View for CrewPreview {
    type V = CrewPreviewV;

    open spec fn view(&self) -> CrewPreviewV {
        CrewPreviewV {
            id: self.id,
            name: self.name@,
            specialty: self.specialty,
            dm_name: self.dm_name@,
            player_count: self.player_count as nat,
        }
    }
}

/// What a crew roster shows of one character.
#[derive(Debug, PartialEq)]
pub struct CharacterPreview {
    pub id: i32,
    pub player_id: String,
    pub player_name: String,
    pub crew_id: i32,
    pub name: String,
    pub class: Class,
}

/// The mathematical value of a [`CharacterPreview`].
#[verifier::ext_equal]
pub struct CharacterPreviewV {
    pub id: i32,
    pub player_id: Seq<char>,
    pub player_name: Seq<char>,
    pub crew_id: i32,
    pub name: Seq<char>,
    pub class: Class,
}

impl View for CharacterPreview {
    type V = CharacterPreviewV;

    open spec fn view(&self) -> CharacterPreviewV {
        CharacterPreviewV {
            id: self.id,
            player_id: self.player_id@,
            player_name: self.player_name@,
            crew_id: self.crew_id,
            name: self.name@,
            class: self.class,
        }
    }
}

/// A full character sheet, owned by the user named in `user_id`.
#[derive(Debug, PartialEq)]
pub struct Character {
    pub id: i32,
    pub user_id: String,
    pub crew_id: i32,
    pub name: String,
    pub look: Description,
    pub heritage: Heritage,
    pub background: Background,
    pub vice: Vice,
    pub stress: u8,
    pub trauma: TraumaFlags,
    pub harm: Harm,
    pub healing: u8,
    pub armor: ArmorFlags,
    pub notes: Description,
    pub class: Class,
    pub abilities: Vec<String>,
    pub contacts: Contacts,
    pub class_items: Vec<String>,
    pub stash: u8,
    pub coin: u8,
    pub xp: XP,
    pub dots: Dots,
    pub load: Option<Load>,
    pub items: Items,
}

/// The mathematical value of a [`Character`].
#[verifier::ext_equal]
pub struct CharacterV {
    pub id: i32,
    pub user_id: Seq<char>,
    pub crew_id: i32,
    pub name: Seq<char>,
    pub look: Seq<char>,
    pub heritage: Heritage,
    pub background: Background,
    pub vice: Vice,
    pub stress: u8,
    pub trauma: TraumaFlags,
    pub harm: HarmV,
    pub healing: u8,
    pub armor: ArmorFlags,
    pub notes: Seq<char>,
    pub class: Class,
    pub abilities: Seq<Seq<char>>,
    pub contacts: ContactsV,
    pub class_items: Seq<Seq<char>>,
    pub stash: u8,
    pub coin: u8,
    pub xp: XP,
    pub dots: Dots,
    pub load: Option<Load>,
    pub items: Items,
}

impl View for Character {
    type V = CharacterV;

    open spec fn view(&self) -> CharacterV {
        CharacterV {
            id: self.id,
            user_id: self.user_id@,
            crew_id: self.crew_id,
            name: self.name@,
            look: self.look@,
            heritage: self.heritage,
            background: self.background,
            vice: self.vice,
            stress: self.stress,
            trauma: self.trauma,
            harm: self.harm@,
            healing: self.healing,
            armor: self.armor,
            notes: self.notes@,
            class: self.class,
            abilities: self.abilities@.map_values(|s: String| s@),
            contacts: self.contacts@,
            class_items: self.class_items@.map_values(|s: String| s@),
            stash: self.stash,
            coin: self.coin,
            xp: self.xp,
            dots: self.dots,
            load: self.load,
            items: self.items,
        }
    }
}

/// Clones a vector of strings, keeping its mathematical value.
fn clone_string_vec(v: &Vec<String>) -> (r: Vec<String>)
    ensures
        r@.map_values(|s: String| s@) =~= v@.map_values(|s: String| s@),
{
    let mut out: Vec<String> = Vec::new();
    let mut i: usize = 0;
    while i < v.len()
        invariant
            i <= v@.len(),
            out@.len() == i,
            forall|j: int| 0 <= j < i ==> out@[j]@ == v@[j]@,
        decreases v@.len() - i,
    {
        out.push(v[i].clone());
        i = i + 1;
    }
    out
}

impl Clone for Contacts {
    fn clone(&self) -> (r: Self)
        ensures
            r@.friends =~= self@.friends,
            r@.rivals =~= self@.rivals,
    {
        Contacts {
            friends: clone_string_vec(&self.friends),
            rivals: clone_string_vec(&self.rivals),
        }
    }
}

impl Clone for Character {
    fn clone(&self) -> (r: Self)
        ensures
            r@.id == self@.id,
            r@.user_id == self@.user_id,
            r@.crew_id == self@.crew_id,
            r@.name == self@.name,
            r@.look == self@.look,
            r@.heritage == self@.heritage,
            r@.background == self@.background,
            r@.vice == self@.vice,
            r@.stress == self@.stress,
            r@.trauma == self@.trauma,
            r@.harm.lesser =~= self@.harm.lesser,
            r@.harm.moderate =~= self@.harm.moderate,
            r@.harm.severe == self@.harm.severe,
            r@.healing == self@.healing,
            r@.armor == self@.armor,
            r@.notes == self@.notes,
            r@.class == self@.class,
            r@.abilities =~= self@.abilities,
            r@.contacts.friends =~= self@.contacts.friends,
            r@.contacts.rivals =~= self@.contacts.rivals,
            r@.class_items =~= self@.class_items,
            r@.stash == self@.stash,
            r@.coin == self@.coin,
            r@.xp == self@.xp,
            r@.dots == self@.dots,
            r@.load == self@.load,
            r@.items == self@.items,
    {
        Character {
            id: self.id,
            user_id: self.user_id.clone(),
            crew_id: self.crew_id,
            name: self.name.clone(),
            look: self.look.clone(),
            heritage: self.heritage,
            background: self.background,
            vice: self.vice,
            stress: self.stress,
            trauma: self.trauma,
            harm: self.harm.clone(),
            healing: self.healing,
            armor: self.armor,
            notes: self.notes.clone(),
            class: self.class,
            abilities: clone_string_vec(&self.abilities),
            contacts: self.contacts.clone(),
            class_items: clone_string_vec(&self.class_items),
            stash: self.stash,
            coin: self.coin,
            xp: self.xp,
            dots: self.dots,
            load: self.load,
            items: self.items,
        }
    }
}

/// Action ratings, zero to four dots each.
#[derive(Debug, Clone, Copy, PartialEq, Eq, Structural)]
pub struct Dots {
    pub hunt: u8,
    pub study: u8,
    pub survey: u8,
    pub tinker: u8,
    pub finesse: u8,
    pub prowl: u8,
    pub skirmish: u8,
    pub wreck: u8,
    pub attune: u8,
    pub command: u8,
    pub consort: u8,
    pub sway: u8,
}


/// The label shown for each variant of [`Heritage`].
pub open spec fn heritage_label(v: Heritage) -> Seq<char> {
    match v {
        Heritage::Akoros => "Akoros"@,
        Heritage::TheDaggerIsles => "The Dagger Isles"@,
        Heritage::Iruvia => "Iruvia"@,
        Heritage::Severos => "Severos"@,
        Heritage::Skovlan => "Skovlan"@,
        Heritage::Tycsheros => "Tycheros"@,
    }
}

impl Heritage {
    /// The label this variant is shown under.
    pub fn label(&self) -> (r: &'static str)
        ensures
            r@ == heritage_label(*self),
    {
        match self {
            Heritage::Akoros => "Akoros",
            Heritage::TheDaggerIsles => "The Dagger Isles",
            Heritage::Iruvia => "Iruvia",
            Heritage::Severos => "Severos",
            Heritage::Skovlan => "Skovlan",
            Heritage::Tycsheros => "Tycheros",
        }
    }

    /// Reads a value back from its exact label.
    pub fn parse(s: &str) -> (r: Option<Heritage>)
        ensures
            match r {
                Some(v) => heritage_label(v) == s@,
                None => forall|v: Heritage| heritage_label(v) != s@,
            },
    {
        if crate::text::str_eq(s, "Akoros") {
            Some(Heritage::Akoros)
        } else if crate::text::str_eq(s, "The Dagger Isles") {
            Some(Heritage::TheDaggerIsles)
        } else if crate::text::str_eq(s, "Iruvia") {
            Some(Heritage::Iruvia)
        } else if crate::text::str_eq(s, "Severos") {
            Some(Heritage::Severos)
        } else if crate::text::str_eq(s, "Skovlan") {
            Some(Heritage::Skovlan)
        } else if crate::text::str_eq(s, "Tycheros") {
            Some(Heritage::Tycsheros)
        } else {
            None
        }
    }

    /// Every variant, in display order.
    pub fn all() -> (r: Vec<Heritage>)
        ensures
            r@ == seq![Heritage::Akoros, Heritage::TheDaggerIsles, Heritage::Iruvia, Heritage::Severos, Heritage::Skovlan, Heritage::Tycsheros],
    {
        let mut v: Vec<Heritage> = Vec::new();
        v.push(Heritage::Akoros);
        v.push(Heritage::TheDaggerIsles);
        v.push(Heritage::Iruvia);
        v.push(Heritage::Severos);
        v.push(Heritage::Skovlan);
        v.push(Heritage::Tycsheros);
        proof {
            assert(v@ =~= seq![Heritage::Akoros, Heritage::TheDaggerIsles, Heritage::Iruvia, Heritage::Severos, Heritage::Skovlan, Heritage::Tycsheros]);
        }
        v
    }
}

/// The label shown for each variant of [`Background`].
pub open spec fn background_label(v: Background) -> Seq<char> {
    match v {
        Background::Academic => "Academic"@,
        Background::Labor => "Labor"@,
        Background::Law => "Law"@,
        Background::Trade => "Trade"@,
        Background::Military => "Military"@,
        Background::Noble => "Noble"@,
        Background::Underworld => "Underworld"@,
    }
}

impl Background {
    /// The label this variant is shown under.
    pub fn label(&self) -> (r: &'static str)
        ensures
            r@ == background_label(*self),
    {
        match self {
            Background::Academic => "Academic",
            Background::Labor => "Labor",
            Background::Law => "Law",
            Background::Trade => "Trade",
            Background::Military => "Military",
            Background::Noble => "Noble",
            Background::Underworld => "Underworld",
        }
    }

    /// Reads a value back from its exact label.
    pub fn parse(s: &str) -> (r: Option<Background>)
        ensures
            match r {
                Some(v) => background_label(v) == s@,
                None => forall|v: Background| background_label(v) != s@,
            },
    {
        if crate::text::str_eq(s, "Academic") {
            Some(Background::Academic)
        } else if crate::text::str_eq(s, "Labor") {
            Some(Background::Labor)
        } else if crate::text::str_eq(s, "Law") {
            Some(Background::Law)
        } else if crate::text::str_eq(s, "Trade") {
            Some(Background::Trade)
        } else if crate::text::str_eq(s, "Military") {
            Some(Background::Military)
        } else if crate::text::str_eq(s, "Noble") {
            Some(Background::Noble)
        } else if crate::text::str_eq(s, "Underworld") {
            Some(Background::Underworld)
        } else {
            None
        }
    }

    /// Every variant, in display order.
    pub fn all() -> (r: Vec<Background>)
        ensures
            r@ == seq![Background::Academic, Background::Labor, Background::Law, Background::Trade, Background::Military, Background::Noble, Background::Underworld],
    {
        let mut v: Vec<Background> = Vec::new();
        v.push(Background::Academic);
        v.push(Background::Labor);
        v.push(Background::Law);
        v.push(Background::Trade);
        v.push(Background::Military);
        v.push(Background::Noble);
        v.push(Background::Underworld);
        proof {
            assert(v@ =~= seq![Background::Academic, Background::Labor, Background::Law, Background::Trade, Background::Military, Background::Noble, Background::Underworld]);
        }
        v
    }
}

/// The label shown for each variant of [`Vice`].
pub open spec fn vice_label(v: Vice) -> Seq<char> {
    match v {
        Vice::Faith => "Faith"@,
        Vice::Gambling => "Gambling"@,
        Vice::Luxury => "Luxury"@,
        Vice::Obligation => "Obligation"@,
        Vice::Pleasure => "Pleasure"@,
        Vice::Stupor => "Stupor"@,
        Vice::Weird => "Weird"@,
    }
}

impl Vice {
    /// The label this variant is shown under.
    pub fn label(&self) -> (r: &'static str)
        ensures
            r@ == vice_label(*self),
    {
        match self {
            Vice::Faith => "Faith",
            Vice::Gambling => "Gambling",
            Vice::Luxury => "Luxury",
            Vice::Obligation => "Obligation",
            Vice::Pleasure => "Pleasure",
            Vice::Stupor => "Stupor",
            Vice::Weird => "Weird",
        }
    }

    /// Reads a value back from its exact label.
    pub fn parse(s: &str) -> (r: Option<Vice>)
        ensures
            match r {
                Some(v) => vice_label(v) == s@,
                None => forall|v: Vice| vice_label(v) != s@,
            },
    {
        if crate::text::str_eq(s, "Faith") {
            Some(Vice::Faith)
        } else if crate::text::str_eq(s, "Gambling") {
            Some(Vice::Gambling)
        } else if crate::text::str_eq(s, "Luxury") {
            Some(Vice::Luxury)
        } else if crate::text::str_eq(s, "Obligation") {
            Some(Vice::Obligation)
        } else if crate::text::str_eq(s, "Pleasure") {
            Some(Vice::Pleasure)
        } else if crate::text::str_eq(s, "Stupor") {
            Some(Vice::Stupor)
        } else if crate::text::str_eq(s, "Weird") {
            Some(Vice::Weird)
        } else {
            None
        }
    }

    /// Every variant, in display order.
    pub fn all() -> (r: Vec<Vice>)
        ensures
            r@ == seq![Vice::Faith, Vice::Gambling, Vice::Luxury, Vice::Obligation, Vice::Pleasure, Vice::Stupor, Vice::Weird],
    {
        let mut v: Vec<Vice> = Vec::new();
        v.push(Vice::Faith);
        v.push(Vice::Gambling);
        v.push(Vice::Luxury);
        v.push(Vice::Obligation);
        v.push(Vice::Pleasure);
        v.push(Vice::Stupor);
        v.push(Vice::Weird);
        proof {
            assert(v@ =~= seq![Vice::Faith, Vice::Gambling, Vice::Luxury, Vice::Obligation, Vice::Pleasure, Vice::Stupor, Vice::Weird]);
        }
        v
    }
}

/// The label shown for each variant of [`Trauma`].
pub open spec fn trauma_label(v: Trauma) -> Seq<char> {
    match v {
        Trauma::Cold => "Cold"@,
        Trauma::Haunted => "Haunted"@,
        Trauma::Obsessed => "Obsessed"@,
        Trauma::Paranoid => "Paranoid"@,
        Trauma::Relentless => "Relentless"@,
        Trauma::Soft => "Soft"@,
        Trauma::Unstable => "Unstable"@,
        Trauma::Vicious => "Vicious"@,
    }
}

impl Trauma {
    /// The label this variant is shown under.
    pub fn label(&self) -> (r: &'static str)
        ensures
            r@ == trauma_label(*self),
    {
        match self {
            Trauma::Cold => "Cold",
            Trauma::Haunted => "Haunted",
            Trauma::Obsessed => "Obsessed",
            Trauma::Paranoid => "Paranoid",
            Trauma::Relentless => "Relentless",
            Trauma::Soft => "Soft",
            Trauma::Unstable => "Unstable",
            Trauma::Vicious => "Vicious",
        }
    }

    /// Reads a value back from its exact label.
    pub fn parse(s: &str) -> (r: Option<Trauma>)
        ensures
            match r {
                Some(v) => trauma_label(v) == s@,
                None => forall|v: Trauma| trauma_label(v) != s@,
            },
    {
        if crate::text::str_eq(s, "Cold") {
            Some(Trauma::Cold)
        } else if crate::text::str_eq(s, "Haunted") {
            Some(Trauma::Haunted)
        } else if crate::text::str_eq(s, "Obsessed") {
            Some(Trauma::Obsessed)
        } else if crate::text::str_eq(s, "Paranoid") {
            Some(Trauma::Paranoid)
        } else if crate::text::str_eq(s, "Relentless") {
            Some(Trauma::Relentless)
        } else if crate::text::str_eq(s, "Soft") {
            Some(Trauma::Soft)
        } else if crate::text::str_eq(s, "Unstable") {
            Some(Trauma::Unstable)
        } else if crate::text::str_eq(s, "Vicious") {
            Some(Trauma::Vicious)
        } else {
            None
        }
    }

    /// Every variant, in display order.
    pub fn all() -> (r: Vec<Trauma>)
        ensures
            r@ == seq![Trauma::Cold, Trauma::Haunted, Trauma::Obsessed, Trauma::Paranoid, Trauma::Relentless, Trauma::Soft, Trauma::Unstable, Trauma::Vicious],
    {
        let mut v: Vec<Trauma> = Vec::new();
        v.push(Trauma::Cold);
        v.push(Trauma::Haunted);
        v.push(Trauma::Obsessed);
        v.push(Trauma::Paranoid);
        v.push(Trauma::Relentless);
        v.push(Trauma::Soft);
        v.push(Trauma::Unstable);
        v.push(Trauma::Vicious);
        proof {
            assert(v@ =~= seq![Trauma::Cold, Trauma::Haunted, Trauma::Obsessed, Trauma::Paranoid, Trauma::Relentless, Trauma::Soft, Trauma::Unstable, Trauma::Vicious]);
        }
        v
    }
}

/// The label shown for each variant of [`Class`].
pub open spec fn class_label(v: Class) -> Seq<char> {
    match v {
        Class::Cutter => "Cutter"@,
        Class::Hound => "Hound"@,
        Class::Leech => "Leech"@,
        Class::Lurk => "Lurk"@,
        Class::Slide => "Slide"@,
        Class::Spider => "Spider"@,
        Class::Whisper => "Whisper"@,
    }
}

/// The lower-case token each variant of [`Class`] is read from.
pub open spec fn class_token(v: Class) -> Seq<char> {
    match v {
        Class::Cutter => "cutter"@,
        Class::Hound => "hound"@,
        Class::Leech => "leech"@,
        Class::Lurk => "lurk"@,
        Class::Slide => "slide"@,
        Class::Spider => "spider"@,
        Class::Whisper => "whisper"@,
    }
}

impl Class {
    /// The label this variant is shown under.
    pub fn label(&self) -> (r: &'static str)
        ensures
            r@ == class_label(*self),
    {
        match self {
            Class::Cutter => "Cutter",
            Class::Hound => "Hound",
            Class::Leech => "Leech",
            Class::Lurk => "Lurk",
            Class::Slide => "Slide",
            Class::Spider => "Spider",
            Class::Whisper => "Whisper",
        }
    }

    /// Reads a value back from its label, ignoring ASCII case.
    pub fn parse(s: &str) -> (r: Option<Class>)
        ensures
            match r {
                Some(v) => class_token(v) == crate::text::lower_seq(s@),
                None => forall|v: Class| class_token(v) != crate::text::lower_seq(s@),
            },
    {
        let lowered = crate::text::ascii_lower(s);
        if crate::text::str_eq(lowered.as_str(), "cutter") {
            Some(Class::Cutter)
        } else if crate::text::str_eq(lowered.as_str(), "hound") {
            Some(Class::Hound)
        } else if crate::text::str_eq(lowered.as_str(), "leech") {
            Some(Class::Leech)
        } else if crate::text::str_eq(lowered.as_str(), "lurk") {
            Some(Class::Lurk)
        } else if crate::text::str_eq(lowered.as_str(), "slide") {
            Some(Class::Slide)
        } else if crate::text::str_eq(lowered.as_str(), "spider") {
            Some(Class::Spider)
        } else if crate::text::str_eq(lowered.as_str(), "whisper") {
            Some(Class::Whisper)
        } else {
            None
        }
    }

}

/// The label shown for each variant of [`CrewSpecialty`].
pub open spec fn specialty_label(v: CrewSpecialty) -> Seq<char> {
    match v {
        CrewSpecialty::Assassins => "Assassins"@,
        CrewSpecialty::Bravos => "Bravos"@,
        CrewSpecialty::Cult => "Cult"@,
        CrewSpecialty::Hawkers => "Hawkers"@,
        CrewSpecialty::Smugglers => "Smugglers"@,
        CrewSpecialty::Shadows => "Shadows"@,
    }
}

/// The lower-case token each variant of [`CrewSpecialty`] is read from.
pub open spec fn specialty_token(v: CrewSpecialty) -> Seq<char> {
    match v {
        CrewSpecialty::Assassins => "assassins"@,
        CrewSpecialty::Bravos => "bravos"@,
        CrewSpecialty::Cult => "cult"@,
        CrewSpecialty::Hawkers => "hawkers"@,
        CrewSpecialty::Smugglers => "smugglers"@,
        CrewSpecialty::Shadows => "shadows"@,
    }
}

impl CrewSpecialty {
    /// The label this variant is shown under.
    pub fn label(&self) -> (r: &'static str)
        ensures
            r@ == specialty_label(*self),
    {
        match self {
            CrewSpecialty::Assassins => "Assassins",
            CrewSpecialty::Bravos => "Bravos",
            CrewSpecialty::Cult => "Cult",
            CrewSpecialty::Hawkers => "Hawkers",
            CrewSpecialty::Smugglers => "Smugglers",
            CrewSpecialty::Shadows => "Shadows",
        }
    }

    /// Reads a value back from its label, ignoring ASCII case.
    pub fn parse(s: &str) -> (r: Option<CrewSpecialty>)
        ensures
            match r {
                Some(v) => specialty_token(v) == crate::text::lower_seq(s@),
                None => forall|v: CrewSpecialty| specialty_token(v) != crate::text::lower_seq(s@),
            },
    {
        let lowered = crate::text::ascii_lower(s);
        if crate::text::str_eq(lowered.as_str(), "assassins") {
            Some(CrewSpecialty::Assassins)
        } else if crate::text::str_eq(lowered.as_str(), "bravos") {
            Some(CrewSpecialty::Bravos)
        } else if crate::text::str_eq(lowered.as_str(), "cult") {
            Some(CrewSpecialty::Cult)
        } else if crate::text::str_eq(lowered.as_str(), "hawkers") {
            Some(CrewSpecialty::Hawkers)
        } else if crate::text::str_eq(lowered.as_str(), "smugglers") {
            Some(CrewSpecialty::Smugglers)
        } else if crate::text::str_eq(lowered.as_str(), "shadows") {
            Some(CrewSpecialty::Shadows)
        } else {
            None
        }
    }

    /// Every variant, in display order.
    pub fn all() -> (r: Vec<CrewSpecialty>)
        ensures
            r@ == seq![CrewSpecialty::Assassins, CrewSpecialty::Bravos, CrewSpecialty::Cult, CrewSpecialty::Hawkers, CrewSpecialty::Smugglers, CrewSpecialty::Shadows],
    {
        let mut v: Vec<CrewSpecialty> = Vec::new();
        v.push(CrewSpecialty::Assassins);
        v.push(CrewSpecialty::Bravos);
        v.push(CrewSpecialty::Cult);
        v.push(CrewSpecialty::Hawkers);
        v.push(CrewSpecialty::Smugglers);
        v.push(CrewSpecialty::Shadows);
        proof {
            assert(v@ =~= seq![CrewSpecialty::Assassins, CrewSpecialty::Bravos, CrewSpecialty::Cult, CrewSpecialty::Hawkers, CrewSpecialty::Smugglers, CrewSpecialty::Shadows]);
        }
        v
    }
}

} // verus!
