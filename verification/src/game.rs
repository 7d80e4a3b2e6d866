//! The cards, characters and players of a game of Bang!, and the deck they draw from.
use vstd::prelude::*;
use rand::Rng;

verus! {

/// The pile of cards a deck holds: each card with the suits and ranks of its copies.
pub type CardPile = Vec<(Card, Vec<(Suit, Rank)>)>;

#[derive(Clone, Copy, Debug, PartialEq, Eq, Structural)]
pub enum Weapon {
    Colt45,
    Volcanic,
    Schofield,
    Remington,
    Carabine,
    Winchester,
}

#[derive(Clone, Copy, Debug, PartialEq, Eq, Structural)]
pub enum Character {
    CalamityJanet,
    ElGringo,
    BartCassidy,
    BlackJack,
    JesseJones,
    Jourdannais,
    KitCarlson,
    LuckyDuke,
    PaulRegret,
    PedroRamirez,
    RoseDoolan,
    SidKetchum,
    SlabTheKiller,
    SuzyLafayette,
    VultureSam,
    WillyTheKid,
}

#[derive(Clone, Copy, Debug, PartialEq, Eq, Structural)]
pub enum Card {
    Bang,
    Miss,
    Barrel,
    Dynamite,
    Jail,
    Mustang,
    Remington,
    Carabine,
    Schofield,
    Scope,
    Volcanic,
    Winchester,
    Beer,
    CatBalou,
    Duel,
    Gatling,
    Store,
    Indians,
    Panic,
    Saloon,
    Stagecoach,
    WellsFargo,
}

/// The cards that are laid down in front of a player.
#[derive(Clone, Copy, Debug, PartialEq, Eq, Structural)]
pub enum LowerCard {
    Jail,
    Mustang,
    Dynamite,
    Scope,
}

#[derive(Clone, Copy, Debug, PartialEq, Eq, Structural)]
pub enum Role {
    Sheriff,
    Deputy,
    Outlaw,
    Renegade,
}

#[derive(Clone, Copy, Debug, PartialEq, Eq, Structural, Hash)]
pub enum Attribute {
    Barrel,
    Jailed,
    Dynamite,
    ExtraRange,
    ExtraDistance,
    LoweredMaxHealth,
    BangMissSwap,
    HitStealCard,
    HitPullCard,
    PullStealCard,
    Pull3Choose2,
    Draw2Choose,
    PullFromDiscard,
    Discard2Heal,
    DoubleMissed,
    RunOutPull,
    KillStealCards,
    NoBangLimit,
    SecondPullGamble,
}

/// The attributes of which a player can hold several at once.
#[derive(Clone, Copy, Debug, PartialEq, Eq, Structural, Hash)]
pub enum AttrNum {
    ExtraRange,
    ExtraDistance,
    Barrel,
}

#[derive(Clone, Copy, Debug, PartialEq, Eq, Structural)]
pub enum Suit {
    Heart,
    Diamond,
    Spade,
    Club,
}

#[derive(Clone, Copy, Debug, PartialEq, Eq, Structural)]
pub enum Rank {
    One,
    Two,
    Three,
    Four,
    Five,
    Six,
    Seven,
    Eight,
    Nine,
    Ten,
    Jack,
    Queen,
    King,
    Ace,
}

#[derive(Clone, Copy, Debug, PartialEq, Eq, Structural)]
pub enum PlayerAction {
    PlayCard(usize),
    ActivateCard(usize),
    Choose(usize),
    PullCard,
}

#[derive(Clone, Copy, Debug, PartialEq, Eq, Structural)]
pub enum GameAction {
    Choose,
}

// ---------------------------------------------------------------------------
// Conversions between cards and attributes
// ---------------------------------------------------------------------------

/// The lower card a card is, if it is one.
pub open spec fn lower_of(card: Card) -> Option<LowerCard> {
    match card {
        Card::Jail => Some(LowerCard::Jail),
        Card::Mustang => Some(LowerCard::Mustang),
        Card::Dynamite => Some(LowerCard::Dynamite),
        Card::Scope => Some(LowerCard::Scope),
        _ => None,
    }
}

/// The card a lower card is.
pub open spec fn card_of_lower(card: LowerCard) -> Card {
    match card {
        LowerCard::Jail => Card::Jail,
        LowerCard::Mustang => Card::Mustang,
        LowerCard::Dynamite => Card::Dynamite,
        LowerCard::Scope => Card::Scope,
    }
}

/// The attribute a card in play gives its holder, if any.
pub open spec fn attribute_of_card(card: Card) -> Option<Attribute> {
    match card {
        Card::Jail => Some(Attribute::Jailed),
        Card::Barrel => Some(Attribute::Barrel),
        Card::Mustang => Some(Attribute::ExtraRange),
        Card::Scope => Some(Attribute::ExtraDistance),
        Card::Dynamite => Some(Attribute::Dynamite),
        _ => None,
    }
}

/// The ability that comes with each character.
pub open spec fn attribute_of_character(c: Character) -> Attribute {
    match c {
        Character::CalamityJanet => Attribute::BangMissSwap,
        Character::ElGringo => Attribute::HitStealCard,
        Character::BartCassidy => Attribute::HitPullCard,
        Character::BlackJack => Attribute::SecondPullGamble,
        Character::JesseJones => Attribute::PullStealCard,
        Character::Jourdannais => Attribute::Barrel,
        Character::KitCarlson => Attribute::HitStealCard,
        Character::LuckyDuke => Attribute::Draw2Choose,
        Character::PaulRegret => Attribute::ExtraDistance,
        Character::PedroRamirez => Attribute::PullFromDiscard,
        Character::RoseDoolan => Attribute::ExtraRange,
        Character::SidKetchum => Attribute::Discard2Heal,
        Character::SlabTheKiller => Attribute::DoubleMissed,
        Character::SuzyLafayette => Attribute::RunOutPull,
        Character::VultureSam => Attribute::KillStealCards,
        Character::WillyTheKid => Attribute::NoBangLimit,
    }
}

/// The counted attribute an attribute is, if it is one.
pub open spec fn attr_num_of(a: Attribute) -> Option<AttrNum> {
    match a {
        Attribute::Barrel => Some(AttrNum::Barrel),
        Attribute::ExtraRange => Some(AttrNum::ExtraRange),
        Attribute::ExtraDistance => Some(AttrNum::ExtraDistance),
        _ => None,
    }
}

/// The attribute a counted attribute is.
pub open spec fn attribute_of_num(a: AttrNum) -> Attribute {
    match a {
        AttrNum::Barrel => Attribute::Barrel,
        AttrNum::ExtraRange => Attribute::ExtraRange,
        AttrNum::ExtraDistance => Attribute::ExtraDistance,
    }
}

/// The card with the given position in the order in which `Card` lists its variants.
pub open spec fn card_at(index: int) -> Card {
    if index == 0 { Card::Bang }
    else if index == 1 { Card::Miss }
    else if index == 2 { Card::Barrel }
    else if index == 3 { Card::Dynamite }
    else if index == 4 { Card::Jail }
    else if index == 5 { Card::Mustang }
    else if index == 6 { Card::Remington }
    else if index == 7 { Card::Carabine }
    else if index == 8 { Card::Schofield }
    else if index == 9 { Card::Scope }
    else if index == 10 { Card::Volcanic }
    else if index == 11 { Card::Winchester }
    else if index == 12 { Card::Beer }
    else if index == 13 { Card::CatBalou }
    else if index == 14 { Card::Duel }
    else if index == 15 { Card::Gatling }
    else if index == 16 { Card::Store }
    else if index == 17 { Card::Indians }
    else if index == 18 { Card::Panic }
    else if index == 19 { Card::Saloon }
    else if index == 20 { Card::Stagecoach }
    else { Card::WellsFargo }
}

impl TryFrom<Card> for LowerCard {
    type Error = ();

    fn try_from(value: Card) -> (r: Result<Self, Self::Error>) {
        match value {
            Card::Jail => Ok(LowerCard::Jail),
            Card::Mustang => Ok(LowerCard::Mustang),
            Card::Dynamite => Ok(LowerCard::Dynamite),
            Card::Scope => Ok(LowerCard::Scope),
            _ => Err(()),
        }
    }
}

impl vstd::std_specs::convert::TryFromSpecImpl<Card> for LowerCard {
    open spec fn obeys_try_from_spec() -> bool {
        true
    }

    open spec fn try_from_spec(v: Card) -> Result<Self, Self::Error> {
        match lower_of(v) {
            Some(l) => Ok(l),
            None => Err(()),
        }
    }
}

impl From<LowerCard> for Card {
    fn from(value: LowerCard) -> (r: Card) {
        match value {
            LowerCard::Jail => Card::Jail,
            LowerCard::Mustang => Card::Mustang,
            LowerCard::Dynamite => Card::Dynamite,
            LowerCard::Scope => Card::Scope,
        }
    }
}

impl vstd::std_specs::convert::FromSpecImpl<LowerCard> for Card {
    open spec fn obeys_from_spec() -> bool {
        true
    }

    open spec fn from_spec(v: LowerCard) -> Card {
        card_of_lower(v)
    }
}

impl TryFrom<Card> for Attribute {
    type Error = ();

    fn try_from(value: Card) -> (r: Result<Self, Self::Error>) {
        match value {
            Card::Jail => Ok(Attribute::Jailed),
            Card::Barrel => Ok(Attribute::Barrel),
            Card::Mustang => Ok(Attribute::ExtraRange),
            Card::Scope => Ok(Attribute::ExtraDistance),
            Card::Dynamite => Ok(Attribute::Dynamite),
            _ => Err(()),
        }
    }
}

impl vstd::std_specs::convert::TryFromSpecImpl<Card> for Attribute {
    open spec fn obeys_try_from_spec() -> bool {
        true
    }

    open spec fn try_from_spec(v: Card) -> Result<Self, Self::Error> {
        match attribute_of_card(v) {
            Some(a) => Ok(a),
            None => Err(()),
        }
    }
}

impl From<&Character> for Attribute {
    fn from(value: &Character) -> (r: Attribute) {
        match value {
            Character::CalamityJanet => Attribute::BangMissSwap,
            Character::ElGringo => Attribute::HitStealCard,
            Character::BartCassidy => Attribute::HitPullCard,
            Character::BlackJack => Attribute::SecondPullGamble,
            Character::JesseJones => Attribute::PullStealCard,
            Character::Jourdannais => Attribute::Barrel,
            Character::KitCarlson => Attribute::HitStealCard,
            Character::LuckyDuke => Attribute::Draw2Choose,
            Character::PaulRegret => Attribute::ExtraDistance,
            Character::PedroRamirez => Attribute::PullFromDiscard,
            Character::RoseDoolan => Attribute::ExtraRange,
            Character::SidKetchum => Attribute::Discard2Heal,
            Character::SlabTheKiller => Attribute::DoubleMissed,
            Character::SuzyLafayette => Attribute::RunOutPull,
            Character::VultureSam => Attribute::KillStealCards,
            Character::WillyTheKid => Attribute::NoBangLimit,
        }
    }
}

impl vstd::std_specs::convert::FromSpecImpl<&Character> for Attribute {
    open spec fn obeys_from_spec() -> bool {
        true
    }

    open spec fn from_spec(v: &Character) -> Attribute {
        attribute_of_character(*v)
    }
}

impl<'a> TryFrom<&'a Attribute> for AttrNum {
    type Error = &'a Attribute;

    fn try_from(value: &'a Attribute) -> (r: Result<Self, Self::Error>) {
        match value {
            Attribute::Barrel => Ok(AttrNum::Barrel),
            Attribute::ExtraRange => Ok(AttrNum::ExtraRange),
            Attribute::ExtraDistance => Ok(AttrNum::ExtraDistance),
            val => Err(val),
        }
    }
}

impl<'a> vstd::std_specs::convert::TryFromSpecImpl<&'a Attribute> for AttrNum {
    open spec fn obeys_try_from_spec() -> bool {
        true
    }

    open spec fn try_from_spec(v: &'a Attribute) -> Result<Self, Self::Error> {
        match attr_num_of(*v) {
            Some(n) => Ok(n),
            None => Err(v),
        }
    }
}

impl From<&AttrNum> for Attribute {
    fn from(value: &AttrNum) -> (r: Attribute) {
        match value {
            AttrNum::Barrel => Attribute::Barrel,
            AttrNum::ExtraRange => Attribute::ExtraRange,
            AttrNum::ExtraDistance => Attribute::ExtraDistance,
        }
    }
}

impl vstd::std_specs::convert::FromSpecImpl<&AttrNum> for Attribute {
    open spec fn obeys_from_spec() -> bool {
        true
    }

    open spec fn from_spec(v: &AttrNum) -> Attribute {
        attribute_of_num(*v)
    }
}

impl Card {
    /// The card with the given position in the order in which `Card` lists its variants.
    pub fn from_index(value: usize) -> (r: Card)
        requires
            value < 22,
        ensures
            r == card_at(value as int),
    {
        match value {
            0 => Card::Bang,
            1 => Card::Miss,
            2 => Card::Barrel,
            3 => Card::Dynamite,
            4 => Card::Jail,
            5 => Card::Mustang,
            6 => Card::Remington,
            7 => Card::Carabine,
            8 => Card::Schofield,
            9 => Card::Scope,
            10 => Card::Volcanic,
            11 => Card::Winchester,
            12 => Card::Beer,
            13 => Card::CatBalou,
            14 => Card::Duel,
            15 => Card::Gatling,
            16 => Card::Store,
            17 => Card::Indians,
            18 => Card::Panic,
            19 => Card::Saloon,
            20 => Card::Stagecoach,
            _ => Card::WellsFargo,
        }
    }
}

/// Turning a lower card into a card and back gives the lower card again.
pub proof fn lemma_lower_card_round_trip(l: LowerCard)
    ensures
        lower_of(card_of_lower(l)) == Some(l),
{
}

/// A card that is a lower card is that lower card turned into a card.
pub proof fn lemma_card_lower_round_trip(c: Card)
    ensures
        lower_of(c) matches Some(l) ==> card_of_lower(l) == c,
{
}

/// Turning a counted attribute into an attribute and back gives it again.
pub proof fn lemma_attr_num_round_trip(n: AttrNum)
    ensures
        attr_num_of(attribute_of_num(n)) == Some(n),
{
}

/// An attribute that is counted is that counted attribute turned into an attribute.
pub proof fn lemma_attribute_num_round_trip(a: Attribute)
    ensures
        attr_num_of(a) matches Some(n) ==> attribute_of_num(n) == a,
{
}


// ---------------------------------------------------------------------------
// Configuration
// ---------------------------------------------------------------------------

/// Which attributes are counted. Without a list, every attribute that can be counted is.
pub struct Config {
    num_attrs: Option<Vec<Attribute>>,
}

impl View for Config {
    type V = Option<Set<Attribute>>;

    closed spec fn view(&self) -> Option<Set<Attribute>> {
        match self.num_attrs {
            Some(v) => Some(v@.to_set()),
            None => None,
        }
    }
}

impl Config {
    pub fn new(num_attrs: Option<Vec<Attribute>>) -> (r: Self)
        ensures
            r@ == (match num_attrs {
                Some(v) => Some(v@.to_set()),
                None => None,
            }),
    {
        Config { num_attrs: num_attrs }
    }

    pub fn num_attrs(&self) -> (r: Option<&Vec<Attribute>>)
        ensures
            r is None <==> self@ is None,
            r matches Some(v) ==> self@ == Some(v@.to_set()),
    {
        match &self.num_attrs {
            Some(v) => Some(v),
            None => None,
        }
    }
}

impl Default for Config {
    fn default() -> (r: Self)
        ensures
            r@ is None,
    {
        Config { num_attrs: None }
    }
}

/// The attributes that a configuration lets be counted, if it restricts them.
pub open spec fn allowed_nums(config: Option<&Config>) -> Option<Set<Attribute>> {
    match config {
        Some(c) => c@,
        None => None,
    }
}

/// The counted attribute that an attribute is under the given restriction, if any.
pub open spec fn spec_try_num(a: Attribute, allowed: Option<Set<Attribute>>) -> Option<AttrNum> {
    match allowed {
        Some(s) => if s.contains(a) { attr_num_of(a) } else { None },
        None => attr_num_of(a),
    }
}

fn attr_in(v: &Vec<Attribute>, a: &Attribute) -> (r: bool)
    ensures
        r == v@.contains(*a),
{
    let mut i: usize = 0;
    while i < v.len()
        invariant
            i <= v.len(),
            forall|j: int| 0 <= j < i ==> v@[j] != *a,
        decreases v.len() - i,
    {
        if v[i] == *a {
            return true;
        }
        i += 1;
    }
    false
}

impl Attribute {
    /// The counted attribute this attribute is, given which ones the configuration counts.
    pub fn try_num(&self, config: Option<&Config>) -> (r: Option<AttrNum>)
        ensures
            r == spec_try_num(*self, allowed_nums(config)),
    {
        match config {
            None => AttrNum::try_from(self).ok(),
            Some(c) => match c.num_attrs() {
                None => AttrNum::try_from(self).ok(),
                Some(allowed) => {
                    if attr_in(allowed, self) {
                        AttrNum::try_from(self).ok()
                    } else {
                        None
                    }
                },
            },
        }
    }
}


// ---------------------------------------------------------------------------
// Players
// ---------------------------------------------------------------------------

/// How many of each counted attribute a player holds.
#[derive(Clone, Copy)]
struct AttrCounts {
    extra_range: usize,
    extra_distance: usize,
    barrel: usize,
}

impl AttrCounts {
    spec fn count(self, a: AttrNum) -> usize {
        match a {
            AttrNum::ExtraRange => self.extra_range,
            AttrNum::ExtraDistance => self.extra_distance,
            AttrNum::Barrel => self.barrel,
        }
    }

    spec fn to_map(self) -> Map<AttrNum, nat> {
        Map::new(|k: AttrNum| self.count(k) > 0, |k: AttrNum| self.count(k) as nat)
    }

    fn empty() -> (r: AttrCounts)
        ensures
            r.to_map() == Map::<AttrNum, nat>::empty(),
    {
        let r = AttrCounts { extra_range: 0, extra_distance: 0, barrel: 0 };
        assert(r.to_map() =~= Map::<AttrNum, nat>::empty());
        r
    }

    fn get(&self, a: &AttrNum) -> (r: usize)
        ensures
            r == self.count(*a),
    {
        match a {
            AttrNum::ExtraRange => self.extra_range,
            AttrNum::ExtraDistance => self.extra_distance,
            AttrNum::Barrel => self.barrel,
        }
    }

    fn set(&mut self, a: &AttrNum, v: usize)
        ensures
            forall|b: AttrNum| #[trigger]
                final(self).count(b) == (if b == *a { v } else { old(self).count(b) }),
    {
        match a {
            AttrNum::ExtraRange => { self.extra_range = v; },
            AttrNum::ExtraDistance => { self.extra_distance = v; },
            AttrNum::Barrel => { self.barrel = v; },
        }
    }
}

/// A player: health, weapon, attributes, character, role and the two hands.
pub struct Player<'a> {
    health: usize,
    weapon: Weapon,
    attributes: Vec<Attribute>,
    attributes_num: AttrCounts,
    character: Character,
    role: Role,
    lower_hand: Vec<LowerCard>,
    upper_hand: Vec<Card>,
    config: Option<&'a Config>,
}

/// What a player is: the attributes it holds as a set, the counted ones with their
/// (positive) counts, and the two hands as sequences.
pub struct PlayerView<'a> {
    pub health: usize,
    pub weapon: Weapon,
    pub attrs: Set<Attribute>,
    pub nums: Map<AttrNum, nat>,
    pub character: Character,
    pub role: Role,
    pub lower: Seq<LowerCard>,
    pub upper: Seq<Card>,
    pub config: Option<&'a Config>,
}

impl<'a> PlayerView<'a> {
    pub open spec fn allowed(self) -> Option<Set<Attribute>> {
        allowed_nums(self.config)
    }

    /// How many of a counted attribute the player holds.
    pub open spec fn count(self, n: AttrNum) -> nat {
        if self.nums.contains_key(n) {
            self.nums[n]
        } else {
            0
        }
    }

    pub open spec fn has_num(self, n: AttrNum) -> bool {
        self.nums.contains_key(n)
    }

    pub open spec fn add_num(self, n: AttrNum) -> PlayerView<'a> {
        PlayerView { nums: self.nums.insert(n, self.count(n) + 1), ..self }
    }

    /// The player after taking away one of a counted attribute, and the count left,
    /// or nothing where the player holds none.
    pub open spec fn rm_num(self, n: AttrNum) -> (PlayerView<'a>, Option<nat>) {
        if !self.nums.contains_key(n) {
            (self, None)
        } else if self.nums[n] <= 1 {
            (PlayerView { nums: self.nums.remove(n), ..self }, Some(0))
        } else {
            (
                PlayerView { nums: self.nums.insert(n, (self.nums[n] - 1) as nat), ..self },
                Some((self.nums[n] - 1) as nat),
            )
        }
    }

    pub open spec fn has_attr(self, a: Attribute) -> bool {
        match spec_try_num(a, self.allowed()) {
            Some(n) => self.has_num(n),
            None => self.attrs.contains(a),
        }
    }

    pub open spec fn add_attr(self, a: Attribute) -> PlayerView<'a> {
        match spec_try_num(a, self.allowed()) {
            Some(n) => self.add_num(n),
            None => PlayerView { attrs: self.attrs.insert(a), ..self },
        }
    }

    /// Whether adding the attribute keeps its count within a `usize`.
    pub open spec fn can_add_attr(self, a: Attribute) -> bool {
        match spec_try_num(a, self.allowed()) {
            Some(n) => self.count(n) < usize::MAX,
            None => true,
        }
    }

    /// The player after taking away an attribute, and whether it held it.
    pub open spec fn rm_attr(self, a: Attribute) -> (PlayerView<'a>, bool) {
        match spec_try_num(a, self.allowed()) {
            Some(n) => (self.rm_num(n).0, self.rm_num(n).1 is Some),
            None => (PlayerView { attrs: self.attrs.remove(a), ..self }, self.attrs.contains(a)),
        }
    }

    /// No attribute in the plain set is one that the configuration counts: those are only
    /// ever counted.
    pub open spec fn plain_uncounted(self) -> bool {
        uncounted_only(self.attrs, self.allowed())
    }

    pub open spec fn with_upper(self, upper: Seq<Card>) -> PlayerView<'a> {
        PlayerView { upper: upper, ..self }
    }

    pub open spec fn with_lower(self, lower: Seq<LowerCard>) -> PlayerView<'a> {
        PlayerView { lower: lower, ..self }
    }
}

/// None of the attributes is counted under the restriction.
pub open spec fn uncounted_only(attrs: Set<Attribute>, allowed: Option<Set<Attribute>>) -> bool {
    forall|a: Attribute| #[trigger] attrs.contains(a) ==> spec_try_num(a, allowed) is None
}

/// Every attribute added in turn, the first one first.
pub open spec fn add_all<'a>(p: PlayerView<'a>, xs: Seq<Attribute>) -> PlayerView<'a>
    decreases xs.len(),
{
    if xs.len() == 0 {
        p
    } else {
        add_all(p, xs.drop_last()).add_attr(xs.last())
    }
}

/// Characters with a lowered maximum health start with three lives, the others with four.
pub open spec fn has_lowered_health(c: Character) -> bool {
    c == Character::ElGringo || c == Character::PaulRegret
}

/// A new player before the extra attributes are added.
pub open spec fn fresh_player<'a>(character: Character, role: Role, config: Option<&'a Config>) -> PlayerView<'a> {
    PlayerView {
        health: if has_lowered_health(character) { 3 } else { 4 },
        weapon: Weapon::Colt45,
        attrs: if has_lowered_health(character) {
            Set::empty().insert(Attribute::LoweredMaxHealth)
        } else {
            Set::empty()
        },
        nums: Map::empty(),
        character: character,
        role: role,
        lower: Seq::empty(),
        upper: Seq::empty(),
        config: config,
    }
}

fn insert_attr(v: &mut Vec<Attribute>, a: Attribute)
    requires
        old(v)@.no_duplicates(),
    ensures
        final(v)@.no_duplicates(),
        final(v)@.to_set() == old(v)@.to_set().insert(a),
{
    if !attr_in(v, &a) {
        v.push(a);
        assert forall|x: Attribute| #[trigger] v@.contains(x) <==> (old(v)@.contains(x) || x == a) by {
            if old(v)@.contains(x) {
                let k = choose|k: int| 0 <= k < old(v)@.len() && old(v)@[k] == x;
                assert(v@[k] == x);
            }
            if x == a {
                assert(v@[v@.len() - 1] == x);
            }
        }
    }
    assert(v@.to_set() =~= old(v)@.to_set().insert(a));
}

fn remove_attr(v: &mut Vec<Attribute>, a: &Attribute) -> (r: bool)
    requires
        old(v)@.no_duplicates(),
    ensures
        final(v)@.no_duplicates(),
        final(v)@.to_set() == old(v)@.to_set().remove(*a),
        r == old(v)@.contains(*a),
{
    let mut i: usize = 0;
    while i < v.len()
        invariant
            i <= v.len(),
            v@ == old(v)@,
            old(v)@.no_duplicates(),
            forall|j: int| 0 <= j < i ==> v@[j] != *a,
        decreases v.len() - i,
    {
        if v[i] == *a {
            let ghost before = v@;
            v.remove(i);
            assert(before[i as int] == *a);
            assert forall|p: int, q: int| 0 <= p < v@.len() && 0 <= q < v@.len() && p != q
                implies v@[p] != v@[q] by {
                let pp = if p < i { p } else { p + 1 };
                let qq = if q < i { q } else { q + 1 };
                assert(v@[p] == before[pp]);
                assert(v@[q] == before[qq]);
            }
            assert forall|x: Attribute| #[trigger] v@.contains(x) <==> (before.contains(x) && x != *a) by {
                if v@.contains(x) {
                    let k = choose|k: int| 0 <= k < v@.len() && v@[k] == x;
                    if k < i {
                        assert(before[k] == x);
                    } else {
                        assert(before[k + 1] == x);
                        assert(k + 1 != i);
                    }
                }
                if before.contains(x) && x != *a {
                    let k = choose|k: int| 0 <= k < before.len() && before[k] == x;
                    if k < i {
                        assert(v@[k] == x);
                    } else {
                        assert(k != i);
                        assert(v@[k - 1] == x);
                    }
                }
            }
            assert(v@.to_set() =~= old(v)@.to_set().remove(*a));
            return true;
        }
        i += 1;
    }
    assert(v@.to_set() =~= old(v)@.to_set().remove(*a));
    false
}

impl<'a> View for Player<'a> {
    type V = PlayerView<'a>;

    closed spec fn view(&self) -> PlayerView<'a> {
        PlayerView {
            health: self.health,
            weapon: self.weapon,
            attrs: self.attributes@.to_set(),
            nums: self.attributes_num.to_map(),
            character: self.character,
            role: self.role,
            lower: self.lower_hand@,
            upper: self.upper_hand@,
            config: self.config,
        }
    }
}

impl<'a> Player<'a> {
    /// The player's attribute list holds no attribute twice, and no attribute that the
    /// player's configuration counts.
    pub closed spec fn wf(&self) -> bool {
        &&& self.attributes@.no_duplicates()
        &&& uncounted_only(self.attributes@.to_set(), allowed_nums(self.config))
    }

    pub fn new(
        character: Character,
        role: Role,
        config: Option<&'a Config>,
        extra_attrs: Option<Vec<Attribute>>,
    ) -> (r: Player<'a>)
        ensures
            r.wf(),
            r@ == (match extra_attrs {
                Some(v) => add_all(fresh_player(character, role, config), v@),
                None => fresh_player(character, role, config),
            }),
    {
        let mut attributes: Vec<Attribute> = Vec::new();
        let health: usize = match &character {
            Character::ElGringo | Character::PaulRegret => {
                attributes.push(Attribute::LoweredMaxHealth);
                3
            },
            _ => 4,
        };
        let mut player = Player {
            health: health,
            weapon: Weapon::Colt45,
            attributes: attributes,
            attributes_num: AttrCounts::empty(),
            character: character,
            role: role,
            lower_hand: Vec::new(),
            upper_hand: Vec::new(),
            config: config,
        };
        proof {
            if has_lowered_health(character) {
                assert(player.attributes@ =~= seq![Attribute::LoweredMaxHealth]);
                assert forall|x: Attribute| #[trigger] player.attributes@.contains(x) <==> x == Attribute::LoweredMaxHealth by {
                    if x == Attribute::LoweredMaxHealth {
                        assert(player.attributes@[0] == x);
                    }
                }
                assert(player.attributes@.to_set() =~= Set::empty().insert(Attribute::LoweredMaxHealth));
            } else {
                assert(player.attributes@.to_set() =~= Set::empty());
            }
        }
        let ghost base = fresh_player(character, role, config);
        assert(player@ == base);
        if let Some(vec) = extra_attrs {
            let mut i: usize = 0;
            while i < vec.len()
                invariant
                    i <= vec.len(),
                    player.wf(),
                    player@ == add_all(base, vec@.take(i as int)),
                    forall|n: AttrNum| #[trigger] player@.count(n) <= i,
                decreases vec.len() - i,
            {
                let x = vec[i];
                let ghost before = player@;
                proof {
                    match spec_try_num(x, before.allowed()) {
                        Some(n) => { assert(before.count(n) <= i); },
                        None => {},
                    }
                }
                player.add_attr(x);
                assert(vec@.take(i + 1).drop_last() =~= vec@.take(i as int));
                i += 1;
                assert forall|n: AttrNum| #[trigger] player@.count(n) <= i by {
                    assert(before.count(n) <= i - 1);
                }
            }
            assert(vec@.take(vec.len() as int) =~= vec@);
        }
        player
    }

    pub fn health(&self) -> (r: usize)
        ensures
            r == self@.health,
    {
        self.health
    }

    pub fn weapon(&self) -> (r: &Weapon)
        ensures
            *r == self@.weapon,
    {
        &self.weapon
    }

    /// The attributes the player holds that are not counted, each once.
    pub fn attr(&self) -> (r: &Vec<Attribute>)
        requires
            self.wf(),
        ensures
            r@.no_duplicates(),
            r@.to_set() == self@.attrs,
    {
        &self.attributes
    }

    /// The counted attributes the player holds, with their counts.
    pub fn attr_num(&self) -> (r: Vec<(AttrNum, usize)>)
        ensures
            r@.len() == self@.nums.dom().len(),
            forall|k: int| 0 <= k < r@.len() ==> #[trigger] self@.nums.contains_key(r@[k].0)
                && self@.nums[r@[k].0] == r@[k].1,
            forall|n: AttrNum| #[trigger] self@.nums.contains_key(n) ==> exists|k: int|
                0 <= k < r@.len() && r@[k].0 == n,
            r@.map_values(|e: (AttrNum, usize)| e.0).no_duplicates(),
    {
        let mut r: Vec<(AttrNum, usize)> = Vec::new();
        let c = self.attributes_num;
        if c.extra_range > 0 {
            r.push((AttrNum::ExtraRange, c.extra_range));
        }
        if c.extra_distance > 0 {
            r.push((AttrNum::ExtraDistance, c.extra_distance));
        }
        if c.barrel > 0 {
            r.push((AttrNum::Barrel, c.barrel));
        }
        proof {
            let m = self@.nums;
            let mut d: Set<AttrNum> = Set::empty();
            if c.extra_range > 0 { d = d.insert(AttrNum::ExtraRange); }
            if c.extra_distance > 0 { d = d.insert(AttrNum::ExtraDistance); }
            if c.barrel > 0 { d = d.insert(AttrNum::Barrel); }
            assert(m.dom() =~= d);
            assert forall|n: AttrNum| #[trigger] m.contains_key(n) implies exists|k: int|
                0 <= k < r@.len() && r@[k].0 == n by {
                let k: int = if n == AttrNum::ExtraRange {
                    0
                } else if n == AttrNum::ExtraDistance {
                    if c.extra_range > 0 { 1 } else { 0 }
                } else {
                    (if c.extra_range > 0 { 1int } else { 0 }) + (if c.extra_distance > 0 { 1int } else { 0 })
                };
                assert(0 <= k < r@.len() && r@[k].0 == n);
            }
        }
        r
    }

    pub fn has_attr(&self, attr: &Attribute) -> (r: bool)
        ensures
            r == self@.has_attr(*attr),
    {
        let attr_num_res = attr.try_num(self.config);
        match attr_num_res {
            Some(attr_num) => self.has_attr_num(&attr_num),
            None => attr_in(&self.attributes, attr),
        }
    }

    pub fn has_attr_num(&self, attr: &AttrNum) -> (r: bool)
        ensures
            r == self@.has_num(*attr),
    {
        self.attributes_num.get(attr) > 0
    }

    pub fn add_attr(&mut self, attr: Attribute)
        requires
            old(self).wf(),
            old(self)@.can_add_attr(attr),
        ensures
            final(self).wf(),
            final(self)@ == old(self)@.add_attr(attr),
    {
        let attr_num_res = attr.try_num(self.config);
        match attr_num_res {
            Some(attr_num) => {
                self.add_attr_num(attr_num);
            },
            None => {
                insert_attr(&mut self.attributes, attr);
            },
        }
    }

    pub fn add_attr_num(&mut self, attr: AttrNum)
        requires
            old(self).wf(),
            old(self)@.count(attr) < usize::MAX,
        ensures
            final(self).wf(),
            final(self)@ == old(self)@.add_num(attr),
    {
        let val = self.attributes_num.get(&attr);
        self.attributes_num.set(&attr, val + 1);
        assert(self.attributes_num.to_map() =~= old(self).attributes_num.to_map().insert(attr, old(self)@.count(attr) + 1));
    }

    pub fn rm_attr(&mut self, attr: &Attribute) -> (r: bool)
        requires
            old(self).wf(),
        ensures
            final(self).wf(),
            (final(self)@, r) == old(self)@.rm_attr(*attr),
    {
        let from_res = attr.try_num(self.config);
        match from_res {
            Some(attr_num) => self.rm_attr_num(&attr_num).is_some(),
            None => remove_attr(&mut self.attributes, attr),
        }
    }

    pub fn rm_attr_num(&mut self, attr: &AttrNum) -> (r: Option<usize>)
        requires
            old(self).wf(),
        ensures
            final(self).wf(),
            final(self)@ == old(self)@.rm_num(*attr).0,
            match r {
                Some(c) => old(self)@.rm_num(*attr).1 == Some(c as nat),
                None => old(self)@.rm_num(*attr).1 is None,
            },
    {
        let count = self.attributes_num.get(attr);
        if count == 0 {
            return None;
        }
        let left = count - 1;
        self.attributes_num.set(attr, left);
        proof {
            let m = old(self).attributes_num.to_map();
            if left == 0 {
                assert(self.attributes_num.to_map() =~= m.remove(*attr));
            } else {
                assert(self.attributes_num.to_map() =~= m.insert(*attr, left as nat));
            }
        }
        Some(left)
    }

    pub fn pull_card(&mut self, deck: &mut Deck, default: &CardPile) -> (r: (Card, Suit, Rank))
        requires
            pile_ready(old(deck)@),
        ensures
            final(self).wf() == old(self).wf(),
            exists|i: int, j: int| #[trigger] valid_draw(old(deck)@, i, j)
                && final(deck)@ == draw(old(deck)@, pile_view(default@), i, j).0
                && r == draw(old(deck)@, pile_view(default@), i, j).1,
            final(self)@ == old(self)@.with_upper(old(self)@.upper.push(r.0)),
    {
        let tuple = deck.rm_card(default);
        self.upper_hand.push(tuple.0);
        tuple
    }

    pub fn rm_upper(&mut self, index: usize) -> (r: Option<Card>)
        requires
            old(self)@.upper.len() == 0 || index < old(self)@.upper.len(),
        ensures
            final(self).wf() == old(self).wf(),
            old(self)@.upper.len() == 0 ==> r is None && final(self)@ == old(self)@,
            old(self)@.upper.len() > 0 ==> r == Some(old(self)@.upper[index as int])
                && final(self)@ == old(self)@.with_upper(old(self)@.upper.remove(index as int)),
    {
        let hand = &mut self.upper_hand;
        match hand.len() {
            0 => None,
            _ => Some(hand.remove(index)),
        }
    }

    pub fn add_upper(&mut self, card: Card)
        ensures
            final(self).wf() == old(self).wf(),
            final(self)@ == old(self)@.with_upper(old(self)@.upper.push(card)),
    {
        self.upper_hand.push(card);
    }

    pub fn rm_lower(&mut self, index: usize) -> (r: Option<LowerCard>)
        requires
            old(self)@.lower.len() == 0 || index < old(self)@.lower.len(),
        ensures
            final(self).wf() == old(self).wf(),
            old(self)@.lower.len() == 0 ==> r is None && final(self)@ == old(self)@,
            old(self)@.lower.len() > 0 ==> r == Some(old(self)@.lower[index as int])
                && final(self)@ == old(self)@.with_lower(old(self)@.lower.remove(index as int)),
    {
        let hand = &mut self.lower_hand;
        match hand.len() {
            0 => None,
            _ => Some(hand.remove(index)),
        }
    }

    pub fn add_lower(&mut self, card: LowerCard)
        ensures
            final(self).wf() == old(self).wf(),
            final(self)@ == old(self)@.with_lower(old(self)@.lower.push(card)),
    {
        self.lower_hand.push(card);
    }

    /// Moves the lower card at `index` of the target's hand to the end of this player's.
    pub fn steal_lower_at(&mut self, target: &mut Player, index: usize)
        requires
            index < old(target)@.lower.len(),
        ensures
            final(self).wf() == old(self).wf(),
            final(target).wf() == old(target).wf(),
            final(target)@ == old(target)@.with_lower(old(target)@.lower.remove(index as int)),
            final(self)@ == old(self)@.with_lower(old(self)@.lower.push(old(target)@.lower[index as int])),
    {
        let card = target.lower_hand.remove(index);
        self.add_lower(card);
    }

    /// Moves the card at `index` of the target's upper hand to the end of this player's.
    pub fn steal_upper_at(&mut self, target: &mut Player, index: usize)
        requires
            index < old(target)@.upper.len(),
        ensures
            final(self).wf() == old(self).wf(),
            final(target).wf() == old(target).wf(),
            final(target)@ == old(target)@.with_upper(old(target)@.upper.remove(index as int)),
            final(self)@ == old(self)@.with_upper(old(self)@.upper.push(old(target)@.upper[index as int])),
    {
        let card = target.upper_hand.remove(index);
        self.add_upper(card);
    }

    /// Moves a lower card, picked at random, from the target's hand to this player's.
    /// Returns false, and changes nothing, where the target has none.
    pub fn steal_lower(&mut self, target: &mut Player) -> (r: bool)
        ensures
            final(self).wf() == old(self).wf(),
            final(target).wf() == old(target).wf(),
            r == (old(target)@.lower.len() > 0),
            !r ==> final(self)@ == old(self)@ && final(target)@ == old(target)@,
            r ==> exists|i: int| 0 <= i < old(target)@.lower.len()
                && final(target)@ == old(target)@.with_lower(old(target)@.lower.remove(i))
                && final(self)@ == old(self)@.with_lower(old(self)@.lower.push(#[trigger] old(target)@.lower[i])),
    {
        let len = target.lower_hand.len();
        let rng_res = rng(0..len);
        match rng_res {
            None => false,
            Some(index) => {
                self.steal_lower_at(target, index);
                true
            },
        }
    }

    /// Moves a card, picked at random, from the target's upper hand to this player's.
    /// Returns false, and changes nothing, where the target has none.
    pub fn steal_upper(&mut self, target: &mut Player) -> (r: bool)
        ensures
            final(self).wf() == old(self).wf(),
            final(target).wf() == old(target).wf(),
            r == (old(target)@.upper.len() > 0),
            !r ==> final(self)@ == old(self)@ && final(target)@ == old(target)@,
            r ==> exists|i: int| 0 <= i < old(target)@.upper.len()
                && final(target)@ == old(target)@.with_upper(old(target)@.upper.remove(i))
                && final(self)@ == old(self)@.with_upper(old(self)@.upper.push(#[trigger] old(target)@.upper[i])),
    {
        let len = target.upper_hand.len();
        let rng_res = rng(0..len);
        match rng_res {
            None => false,
            Some(index) => {
                self.steal_upper_at(target, index);
                true
            },
        }
    }

    pub fn character(&self) -> (r: &Character)
        ensures
            *r == self@.character,
    {
        &self.character
    }

    pub fn role(&self) -> (r: &Role)
        ensures
            *r == self@.role,
    {
        &self.role
    }

    pub fn upper_hand(&mut self) -> (r: &mut Vec<Card>)
        ensures
            r@ == old(self)@.upper,
            final(self)@ == old(self)@.with_upper(final(r)@),
            final(self).wf() == old(self).wf(),
    {
        &mut self.upper_hand
    }

    pub fn lower_hand(&mut self) -> (r: &mut Vec<LowerCard>)
        ensures
            r@ == old(self)@.lower,
            final(self)@ == old(self)@.with_lower(final(r)@),
            final(self).wf() == old(self).wf(),
    {
        &mut self.lower_hand
    }

    pub fn config(&self) -> (r: Option<&Config>)
        ensures
            r == self@.config,
    {
        self.config
    }
}

impl Default for Player<'_> {
    fn default() -> (r: Self)
        ensures
            r.wf(),
            r@ == fresh_player(Character::CalamityJanet, Role::Outlaw, None),
    {
        let r = Player {
            health: 4,
            weapon: Weapon::Colt45,
            attributes: Vec::new(),
            attributes_num: AttrCounts::empty(),
            character: Character::CalamityJanet,
            role: Role::Outlaw,
            lower_hand: Vec::new(),
            upper_hand: Vec::new(),
            config: None,
        };
        assert(r.attributes@.to_set() =~= Set::empty());
        r
    }
}


// ---------------------------------------------------------------------------
// The deck
// ---------------------------------------------------------------------------

/// A pile of cards as plain values.
pub open spec fn pile_view(p: Seq<(Card, Vec<(Suit, Rank)>)>) -> Seq<(Card, Seq<(Suit, Rank)>)> {
    p.map_values(|e: (Card, Vec<(Suit, Rank)>)| (e.0, e.1@))
}

/// A pile one can draw from: it is not empty, and every card in it has a copy left.
pub open spec fn pile_ready(p: Seq<(Card, Seq<(Suit, Rank)>)>) -> bool {
    &&& p.len() > 0
    &&& forall|i: int| 0 <= i < p.len() ==> (#[trigger] p[i]).1.len() > 0
}

/// The copy `j` of the card `i` is there to be drawn.
pub open spec fn valid_draw(p: Seq<(Card, Seq<(Suit, Rank)>)>, i: int, j: int) -> bool {
    0 <= i < p.len() && 0 <= j < p[i].1.len()
}

/// The pile after drawing the copy `j` of the card `i`, and the copy drawn. The copy is
/// swapped out of its list; a card with no copy left is swapped out of the pile; an
/// emptied pile is restocked from `default`.
pub open spec fn draw(
    p: Seq<(Card, Seq<(Suit, Rank)>)>,
    default: Seq<(Card, Seq<(Suit, Rank)>)>,
    i: int,
    j: int,
) -> (Seq<(Card, Seq<(Suit, Rank)>)>, (Card, Suit, Rank)) {
    let card = p[i].0;
    let copies = p[i].1;
    let drawn = (card, copies[j].0, copies[j].1);
    let rest = copies.update(j, copies.last()).drop_last();
    if rest.len() > 0 {
        (p.update(i, (card, rest)), drawn)
    } else {
        let q = p.update(i, p.last()).drop_last();
        if q.len() > 0 {
            (q, drawn)
        } else {
            (default, drawn)
        }
    }
}

/// How many copies a pile holds in all.
pub open spec fn pile_size(p: Seq<(Card, Seq<(Suit, Rank)>)>) -> nat
    decreases p.len(),
{
    if p.len() == 0 {
        0
    } else {
        pile_size(p.drop_last()) + p.last().1.len()
    }
}

/// A random index in `range`, or nothing where the range is empty.
fn rng(range: std::ops::Range<usize>) -> (r: Option<usize>)
    ensures
        r is None <==> range.start >= range.end,
        r matches Some(i) ==> range.start <= i < range.end,
{
    if range.start >= range.end {
        return None;
    }
    Some(random_in(range.start, range.end))
}

/// `rand::thread_rng().gen_range(start..end)`: some number at least `start` and below `end`,
/// picked at random (the crate panics on an empty range, which `requires` leaves out).
#[verifier::external_body]
fn random_in(start: usize, end: usize) -> (r: usize)
    requires
        start < end,
    ensures
        start <= r < end,
{
    rand::thread_rng().gen_range(start..end)
}

fn copy_copies(v: &Vec<(Suit, Rank)>) -> (r: Vec<(Suit, Rank)>)
    ensures
        r@ == v@,
{
    let mut r: Vec<(Suit, Rank)> = Vec::new();
    let mut k: usize = 0;
    while k < v.len()
        invariant
            k <= v.len(),
            r@ == v@.take(k as int),
        decreases v.len() - k,
    {
        r.push(v[k]);
        k += 1;
        assert(r@ =~= v@.take(k as int));
    }
    assert(v@.take(v.len() as int) =~= v@);
    r
}

fn copy_pile(p: &CardPile) -> (r: CardPile)
    ensures
        pile_view(r@) == pile_view(p@),
{
    let mut r: CardPile = Vec::new();
    let mut k: usize = 0;
    while k < p.len()
        invariant
            k <= p.len(),
            r@.len() == k,
            pile_view(r@) == pile_view(p@).take(k as int),
        decreases p.len() - k,
    {
        let copies = copy_copies(&p[k].1);
        let ghost old_r = r@;
        r.push((p[k].0, copies));
        assert forall|m: int| 0 <= m < r@.len() implies #[trigger] pile_view(r@)[m] == pile_view(p@)[m] by {
            if m < k {
                assert(pile_view(old_r)[m] == pile_view(p@).take(k as int)[m]);
                assert(r@[m] == old_r[m]);
            }
        }
        k += 1;
        assert(pile_view(r@) =~= pile_view(p@).take(k as int));
    }
    assert(pile_view(p@).take(p.len() as int) =~= pile_view(p@));
    r
}

pub struct Deck {
    pub inner: CardPile,
}

impl View for Deck {
    type V = Seq<(Card, Seq<(Suit, Rank)>)>;

    open spec fn view(&self) -> Seq<(Card, Seq<(Suit, Rank)>)> {
        pile_view(self.inner@)
    }
}

impl Deck {
    pub fn new(inner: CardPile) -> (r: Self)
        ensures
            r.inner == inner,
    {
        Deck { inner: inner }
    }

    /// Draws the copy `j` of the card `i`; see `draw`.
    pub fn rm_card_at(&mut self, default: &CardPile, i: usize, j: usize) -> (r: (Card, Suit, Rank))
        requires
            valid_draw(old(self)@, i as int, j as int),
        ensures
            final(self)@ == draw(old(self)@, pile_view(default@), i as int, j as int).0,
            r == draw(old(self)@, pile_view(default@), i as int, j as int).1,
    {
        let ghost p = self@;
        let card = self.inner[i].0;
        let (suit, rank) = self.inner[i].1.swap_remove(j);
        assert(pile_view(self.inner@) =~= p.update(i as int, (card, p[i as int].1.update(j as int, p[i as int].1.last()).drop_last())));
        if self.inner[i].1.len() > 0 {
            return (card, suit, rank);
        }
        self.inner.swap_remove(i);
        assert(pile_view(self.inner@) =~= p.update(i as int, p.last()).drop_last());
        if self.inner.len() == 0 {
            self.inner = copy_pile(default);
        }
        (card, suit, rank)
    }

    /// Draws a copy picked at random, as `rm_card_at` does.
    pub fn rm_card(&mut self, default: &CardPile) -> (r: (Card, Suit, Rank))
        requires
            pile_ready(old(self)@),
        ensures
            exists|i: int, j: int| #[trigger] valid_draw(old(self)@, i, j)
                && final(self)@ == draw(old(self)@, pile_view(default@), i, j).0
                && r == draw(old(self)@, pile_view(default@), i, j).1,
    {
        let len = self.len();
        let rng1 = rng(0..len).unwrap();
        let len2 = self.inner[rng1].1.len();
        assert(self@[rng1 as int].1.len() > 0);
        let rng2 = rng(0..len2).unwrap();
        let r = self.rm_card_at(default, rng1, rng2);
        assert(valid_draw(old(self)@, rng1 as int, rng2 as int));
        r
    }

    pub fn inner(&self) -> (r: &CardPile)
        ensures
            r == &self.inner,
    {
        &self.inner
    }

    pub fn inner_mut(&mut self) -> (r: &mut CardPile)
        ensures
            *r == old(self).inner,
            final(self).inner == *final(r),
    {
        &mut self.inner
    }

    pub fn extract_inner(self) -> (r: CardPile)
        ensures
            r == self.inner,
    {
        self.inner
    }

    /// Leaves the deck as it is and reports success.
    pub fn restock(&mut self, default: CardPile) -> (r: bool)
        ensures
            r,
            final(self).inner == old(self).inner,
    {
        true
    }

    pub fn len(&self) -> (r: usize)
        ensures
            r == self@.len(),
    {
        self.inner.len()
    }
}


// ---------------------------------------------------------------------------
// Laws
// ---------------------------------------------------------------------------

impl<'a> PlayerView<'a> {
    /// Every counted attribute the player holds, it holds at least once.
    pub open spec fn counts_positive(self) -> bool {
        forall|n: AttrNum| #[trigger] self.nums.contains_key(n) ==> self.nums[n] > 0
    }
}

impl<'a> Player<'a> {
    /// A player holds each of its counted attributes at least once.
    pub proof fn lemma_counts_positive(&self)
        ensures
            self@.counts_positive(),
    {
    }
}

impl<'a> Player<'a> {
    /// Attributes that the player's configuration counts are only ever counted: none of them
    /// is in the plain set.
    pub proof fn lemma_plain_uncounted(&self)
        requires
            self.wf(),
        ensures
            self@.plain_uncounted(),
            forall|a: Attribute| #[trigger] self@.attrs.contains(a) ==> spec_try_num(a, self@.allowed()) is None,
    {
    }
}

/// The parts of a player that no public method changes: health, weapon, character, role and
/// configuration.
pub open spec fn keeps_identity<'a>(p: PlayerView<'a>, q: PlayerView<'a>) -> bool {
    &&& q.health == p.health
    &&& q.weapon == p.weapon
    &&& q.character == p.character
    &&& q.role == p.role
    &&& q.config == p.config
}

/// Every change the public methods make to a player (adding or taking away an attribute or a
/// count, changing either hand) keeps its health, weapon, character, role and configuration,
/// and lets no counted attribute into the plain set.
pub proof fn lemma_changes_keep_identity<'a>(
    p: PlayerView<'a>,
    a: Attribute,
    n: AttrNum,
    upper: Seq<Card>,
    lower: Seq<LowerCard>,
)
    ensures
        keeps_identity(p, p.add_attr(a)),
        keeps_identity(p, p.add_num(n)),
        keeps_identity(p, p.rm_num(n).0),
        keeps_identity(p, p.rm_attr(a).0),
        keeps_identity(p, p.with_upper(upper)),
        keeps_identity(p, p.with_lower(lower)),
        p.plain_uncounted() ==> p.add_attr(a).plain_uncounted(),
        p.plain_uncounted() ==> p.add_num(n).plain_uncounted(),
        p.plain_uncounted() ==> p.rm_num(n).0.plain_uncounted(),
        p.plain_uncounted() ==> p.rm_attr(a).0.plain_uncounted(),
        p.plain_uncounted() ==> p.with_upper(upper).plain_uncounted(),
        p.plain_uncounted() ==> p.with_lower(lower).plain_uncounted(),
{
}

/// Any run of such changes keeps health, weapon, character, role and configuration.
pub proof fn lemma_keeps_identity_trans<'a>(p: PlayerView<'a>, q: PlayerView<'a>, r: PlayerView<'a>)
    requires
        keeps_identity(p, q),
        keeps_identity(q, r),
    ensures
        keeps_identity(p, r),
{
}

/// A new player has three lives and the attribute `LoweredMaxHealth` exactly when its
/// character is El Gringo or Paul Regret; every other character starts with four lives and no
/// attribute. Either way it holds the Colt .45, no counted attribute and no cards.
pub proof fn lemma_new_player_health<'a>(c: Character, r: Role, config: Option<&'a Config>)
    ensures
        (c == Character::ElGringo || c == Character::PaulRegret) ==> fresh_player(c, r, config).health == 3
            && fresh_player(c, r, config).attrs == Set::<Attribute>::empty().insert(Attribute::LoweredMaxHealth),
        !(c == Character::ElGringo || c == Character::PaulRegret) ==> fresh_player(c, r, config).health == 4
            && fresh_player(c, r, config).attrs == Set::<Attribute>::empty(),
        fresh_player(c, r, config).weapon == Weapon::Colt45,
        fresh_player(c, r, config).nums == Map::<AttrNum, nat>::empty(),
        fresh_player(c, r, config).upper.len() == 0,
        fresh_player(c, r, config).lower.len() == 0,
        fresh_player(c, r, config).character == c,
        fresh_player(c, r, config).role == r,
        fresh_player(c, r, config).config == config,
{
}

/// After an attribute is added, the player has it.
pub proof fn lemma_add_attr_then_has(p: PlayerView, a: Attribute)
    ensures
        p.add_attr(a).has_attr(a),
{
}

/// Taking away an attribute just added reports that it was there; and where the attribute
/// is counted, or the player did not have it before, the player is back where it was.
pub proof fn lemma_add_then_rm_attr(p: PlayerView, a: Attribute)
    requires
        p.counts_positive(),
    ensures
        p.add_attr(a).rm_attr(a).1,
        (spec_try_num(a, p.allowed()) is Some || !p.has_attr(a)) ==> p.add_attr(a).rm_attr(a).0 == p,
{
    match spec_try_num(a, p.allowed()) {
        Some(n) => {
            let q = p.add_attr(a);
            assert(q.allowed() == p.allowed());
            if p.nums.contains_key(n) {
                assert(q.nums.insert(n, p.nums[n]) =~= p.nums);
            } else {
                assert(q.nums.remove(n) =~= p.nums);
            }
        },
        None => {
            if !p.attrs.contains(a) {
                assert(p.attrs.insert(a).remove(a) =~= p.attrs);
            }
        },
    }
}

/// Taking away an attribute the player does not have reports so and changes nothing.
pub proof fn lemma_rm_absent_attr(p: PlayerView, a: Attribute)
    requires
        !p.has_attr(a),
    ensures
        p.rm_attr(a) == (p, false),
{
    match spec_try_num(a, p.allowed()) {
        Some(n) => {},
        None => {
            assert(p.attrs.remove(a) =~= p.attrs);
        },
    }
}

proof fn lemma_pile_size_update(
    p: Seq<(Card, Seq<(Suit, Rank)>)>,
    i: int,
    x: (Card, Seq<(Suit, Rank)>),
)
    requires
        0 <= i < p.len(),
    ensures
        pile_size(p.update(i, x)) + p[i].1.len() == pile_size(p) + x.1.len(),
    decreases p.len(),
{
    let q = p.update(i, x);
    if i == p.len() - 1 {
        assert(q.drop_last() =~= p.drop_last());
    } else {
        assert(q.drop_last() =~= p.drop_last().update(i, x));
        lemma_pile_size_update(p.drop_last(), i, x);
    }
}

proof fn lemma_pile_size_swap_remove(p: Seq<(Card, Seq<(Suit, Rank)>)>, i: int)
    requires
        0 <= i < p.len(),
    ensures
        pile_size(p.update(i, p.last()).drop_last()) + p[i].1.len() == pile_size(p),
{
    let q = p.update(i, p.last()).drop_last();
    if i == p.len() - 1 {
        assert(q =~= p.drop_last());
    } else {
        assert(q =~= p.drop_last().update(i, p.last()));
        lemma_pile_size_update(p.drop_last(), i, p.last());
    }
}

proof fn lemma_ready_pile_size(p: Seq<(Card, Seq<(Suit, Rank)>)>)
    requires
        forall|i: int| 0 <= i < p.len() ==> (#[trigger] p[i]).1.len() > 0,
    ensures
        pile_size(p) >= p.len(),
        forall|i: int| 0 <= i < p.len() ==> (#[trigger] p[i]).1.len() <= pile_size(p),
    decreases p.len(),
{
    if p.len() > 0 {
        let q = p.drop_last();
        assert forall|i: int| 0 <= i < q.len() implies (#[trigger] q[i]).1.len() > 0 by {
            assert(q[i] == p[i]);
        }
        lemma_ready_pile_size(q);
        assert forall|i: int| 0 <= i < p.len() implies (#[trigger] p[i]).1.len() <= pile_size(p) by {
            if i < q.len() {
                assert(q[i] == p[i]);
            }
        }
    }
}

/// Drawing from a ready pile takes exactly one copy out of it, unless that copy was the
/// last one, in which case the pile is restocked from the default pile.
pub proof fn lemma_draw_takes_one(
    p: Seq<(Card, Seq<(Suit, Rank)>)>,
    default: Seq<(Card, Seq<(Suit, Rank)>)>,
    i: int,
    j: int,
)
    requires
        pile_ready(p),
        valid_draw(p, i, j),
    ensures
        pile_size(p) > 1 ==> pile_size(draw(p, default, i, j).0) + 1 == pile_size(p),
        pile_size(p) == 1 ==> draw(p, default, i, j).0 == default,
        draw(p, default, i, j).1 == (p[i].0, p[i].1[j].0, p[i].1[j].1),
{
    let copies = p[i].1;
    let rest = copies.update(j, copies.last()).drop_last();
    lemma_ready_pile_size(p);
    if rest.len() > 0 {
        lemma_pile_size_update(p, i, (p[i].0, rest));
    } else {
        let q = p.update(i, p.last()).drop_last();
        lemma_pile_size_swap_remove(p, i);
        if q.len() > 0 {
            assert forall|k: int| 0 <= k < q.len() implies (#[trigger] q[k]).1.len() > 0 by {
                if k == i {
                    assert(q[k] == p.last());
                } else {
                    assert(q[k] == p[k]);
                }
            }
            lemma_ready_pile_size(q);
        }
    }
}

/// Drawing from a ready pile, with a ready default pile, leaves a ready pile.
pub proof fn lemma_draw_keeps_ready(
    p: Seq<(Card, Seq<(Suit, Rank)>)>,
    default: Seq<(Card, Seq<(Suit, Rank)>)>,
    i: int,
    j: int,
)
    requires
        pile_ready(p),
        pile_ready(default),
        valid_draw(p, i, j),
    ensures
        pile_ready(draw(p, default, i, j).0),
{
    let copies = p[i].1;
    let rest = copies.update(j, copies.last()).drop_last();
    let r = draw(p, default, i, j).0;
    if rest.len() > 0 {
        assert forall|k: int| 0 <= k < r.len() implies (#[trigger] r[k]).1.len() > 0 by {
            if k != i {
                assert(r[k] == p[k]);
            }
        }
    } else {
        let q = p.update(i, p.last()).drop_last();
        if q.len() > 0 {
            assert forall|k: int| 0 <= k < q.len() implies (#[trigger] q[k]).1.len() > 0 by {
                if k == i {
                    assert(q[k] == p.last());
                } else {
                    assert(q[k] == p[k]);
                }
            }
        }
    }
}

} // verus!
