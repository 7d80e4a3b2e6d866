//! The pile a fresh deck is made of.
use vstd::prelude::*;
use crate::game::{Card, CardPile, Deck, Rank, Suit, card_at, pile_ready, pile_size, pile_view};

verus! {

/// Every card of a fresh deck, with the suit and rank of each of its copies.
pub open spec fn default_pile() -> Seq<(Card, Seq<(Suit, Rank)>)> {
    seq![
        (Card::Bang, seq![(Suit::Spade, Rank::Ace), (Suit::Diamond, Rank::Two), (Suit::Diamond, Rank::Three), (Suit::Diamond, Rank::Four), (Suit::Diamond, Rank::Five), (Suit::Diamond, Rank::Six), (Suit::Diamond, Rank::Seven), (Suit::Diamond, Rank::Eight), (Suit::Diamond, Rank::Nine), (Suit::Diamond, Rank::Ten), (Suit::Diamond, Rank::Jack), (Suit::Diamond, Rank::Queen), (Suit::Diamond, Rank::King), (Suit::Diamond, Rank::Ace), (Suit::Club, Rank::Two), (Suit::Club, Rank::Three), (Suit::Club, Rank::Four), (Suit::Club, Rank::Five), (Suit::Club, Rank::Six), (Suit::Club, Rank::Seven), (Suit::Club, Rank::Eight), (Suit::Club, Rank::Nine), (Suit::Heart, Rank::Queen), (Suit::Heart, Rank::King), (Suit::Heart, Rank::Ace)]),
        (Card::Miss, seq![(Suit::Club, Rank::Ten), (Suit::Club, Rank::Jack), (Suit::Club, Rank::Queen), (Suit::Club, Rank::King), (Suit::Club, Rank::Ace), (Suit::Spade, Rank::Two), (Suit::Spade, Rank::Three), (Suit::Spade, Rank::Four), (Suit::Spade, Rank::Five), (Suit::Spade, Rank::Six), (Suit::Spade, Rank::Seven), (Suit::Spade, Rank::Eight)]),
        (Card::Barrel, seq![(Suit::Spade, Rank::Queen), (Suit::Spade, Rank::King)]),
        (Card::Dynamite, seq![(Suit::Heart, Rank::Two)]),
        (Card::Jail, seq![(Suit::Heart, Rank::Four), (Suit::Spade, Rank::Jack), (Suit::Spade, Rank::Ten)]),
        (Card::Mustang, seq![(Suit::Heart, Rank::Eight), (Suit::Heart, Rank::Nine)]),
        (Card::Remington, seq![(Suit::Club, Rank::King)]),
        (Card::Carabine, seq![(Suit::Club, Rank::Ace)]),
        (Card::Schofield, seq![(Suit::Club, Rank::Jack), (Suit::Club, Rank::Queen), (Suit::Spade, Rank::King)]),
        (Card::Scope, seq![(Suit::Spade, Rank::Ace)]),
        (Card::Volcanic, seq![(Suit::Spade, Rank::Ten), (Suit::Club, Rank::Ten)]),
        (Card::Winchester, seq![(Suit::Spade, Rank::Eight)]),
        (Card::Beer, seq![(Suit::Heart, Rank::Six), (Suit::Heart, Rank::Seven), (Suit::Heart, Rank::Eight), (Suit::Heart, Rank::Nine), (Suit::Heart, Rank::Ten), (Suit::Heart, Rank::Jack)]),
        (Card::CatBalou, seq![(Suit::Heart, Rank::King), (Suit::Diamond, Rank::Nine), (Suit::Diamond, Rank::Ten), (Suit::Diamond, Rank::Jack)]),
        (Card::Duel, seq![(Suit::Diamond, Rank::Queen), (Suit::Spade, Rank::Jack), (Suit::Club, Rank::Eight)]),
        (Card::Gatling, seq![(Suit::Heart, Rank::Ten)]),
        (Card::Store, seq![(Suit::Club, Rank::Nine), (Suit::Spade, Rank::Queen)]),
        (Card::Indians, seq![(Suit::Diamond, Rank::King), (Suit::Diamond, Rank::Ace)]),
        (Card::Panic, seq![(Suit::Heart, Rank::Jack), (Suit::Heart, Rank::Queen), (Suit::Heart, Rank::Ace), (Suit::Diamond, Rank::Eight)]),
        (Card::Saloon, seq![(Suit::Heart, Rank::Five)]),
        (Card::Stagecoach, seq![(Suit::Spade, Rank::Nine), (Suit::Spade, Rank::Nine)]),
        (Card::WellsFargo, seq![(Suit::Heart, Rank::Three)]),
    ]
}

impl Default for Deck {
    fn default() -> (r: Self)
        ensures
            r@ == default_pile(),
    {
        let inner: CardPile = vec![
        (Card::Bang, vec![(Suit::Spade, Rank::Ace), (Suit::Diamond, Rank::Two), (Suit::Diamond, Rank::Three), (Suit::Diamond, Rank::Four), (Suit::Diamond, Rank::Five), (Suit::Diamond, Rank::Six), (Suit::Diamond, Rank::Seven), (Suit::Diamond, Rank::Eight), (Suit::Diamond, Rank::Nine), (Suit::Diamond, Rank::Ten), (Suit::Diamond, Rank::Jack), (Suit::Diamond, Rank::Queen), (Suit::Diamond, Rank::King), (Suit::Diamond, Rank::Ace), (Suit::Club, Rank::Two), (Suit::Club, Rank::Three), (Suit::Club, Rank::Four), (Suit::Club, Rank::Five), (Suit::Club, Rank::Six), (Suit::Club, Rank::Seven), (Suit::Club, Rank::Eight), (Suit::Club, Rank::Nine), (Suit::Heart, Rank::Queen), (Suit::Heart, Rank::King), (Suit::Heart, Rank::Ace)]),
        (Card::Miss, vec![(Suit::Club, Rank::Ten), (Suit::Club, Rank::Jack), (Suit::Club, Rank::Queen), (Suit::Club, Rank::King), (Suit::Club, Rank::Ace), (Suit::Spade, Rank::Two), (Suit::Spade, Rank::Three), (Suit::Spade, Rank::Four), (Suit::Spade, Rank::Five), (Suit::Spade, Rank::Six), (Suit::Spade, Rank::Seven), (Suit::Spade, Rank::Eight)]),
        (Card::Barrel, vec![(Suit::Spade, Rank::Queen), (Suit::Spade, Rank::King)]),
        (Card::Dynamite, vec![(Suit::Heart, Rank::Two)]),
        (Card::Jail, vec![(Suit::Heart, Rank::Four), (Suit::Spade, Rank::Jack), (Suit::Spade, Rank::Ten)]),
        (Card::Mustang, vec![(Suit::Heart, Rank::Eight), (Suit::Heart, Rank::Nine)]),
        (Card::Remington, vec![(Suit::Club, Rank::King)]),
        (Card::Carabine, vec![(Suit::Club, Rank::Ace)]),
        (Card::Schofield, vec![(Suit::Club, Rank::Jack), (Suit::Club, Rank::Queen), (Suit::Spade, Rank::King)]),
        (Card::Scope, vec![(Suit::Spade, Rank::Ace)]),
        (Card::Volcanic, vec![(Suit::Spade, Rank::Ten), (Suit::Club, Rank::Ten)]),
        (Card::Winchester, vec![(Suit::Spade, Rank::Eight)]),
        (Card::Beer, vec![(Suit::Heart, Rank::Six), (Suit::Heart, Rank::Seven), (Suit::Heart, Rank::Eight), (Suit::Heart, Rank::Nine), (Suit::Heart, Rank::Ten), (Suit::Heart, Rank::Jack)]),
        (Card::CatBalou, vec![(Suit::Heart, Rank::King), (Suit::Diamond, Rank::Nine), (Suit::Diamond, Rank::Ten), (Suit::Diamond, Rank::Jack)]),
        (Card::Duel, vec![(Suit::Diamond, Rank::Queen), (Suit::Spade, Rank::Jack), (Suit::Club, Rank::Eight)]),
        (Card::Gatling, vec![(Suit::Heart, Rank::Ten)]),
        (Card::Store, vec![(Suit::Club, Rank::Nine), (Suit::Spade, Rank::Queen)]),
        (Card::Indians, vec![(Suit::Diamond, Rank::King), (Suit::Diamond, Rank::Ace)]),
        (Card::Panic, vec![(Suit::Heart, Rank::Jack), (Suit::Heart, Rank::Queen), (Suit::Heart, Rank::Ace), (Suit::Diamond, Rank::Eight)]),
        (Card::Saloon, vec![(Suit::Heart, Rank::Five)]),
        (Card::Stagecoach, vec![(Suit::Spade, Rank::Nine), (Suit::Spade, Rank::Nine)]),
        (Card::WellsFargo, vec![(Suit::Heart, Rank::Three)]),
        ];
        assert(pile_view(inner@)[0] == default_pile()[0]);
        assert(pile_view(inner@)[1] == default_pile()[1]);
        assert(pile_view(inner@)[2] == default_pile()[2]);
        assert(pile_view(inner@)[3] == default_pile()[3]);
        assert(pile_view(inner@)[4] == default_pile()[4]);
        assert(pile_view(inner@)[5] == default_pile()[5]);
        assert(pile_view(inner@)[6] == default_pile()[6]);
        assert(pile_view(inner@)[7] == default_pile()[7]);
        assert(pile_view(inner@)[8] == default_pile()[8]);
        assert(pile_view(inner@)[9] == default_pile()[9]);
        assert(pile_view(inner@)[10] == default_pile()[10]);
        assert(pile_view(inner@)[11] == default_pile()[11]);
        assert(pile_view(inner@)[12] == default_pile()[12]);
        assert(pile_view(inner@)[13] == default_pile()[13]);
        assert(pile_view(inner@)[14] == default_pile()[14]);
        assert(pile_view(inner@)[15] == default_pile()[15]);
        assert(pile_view(inner@)[16] == default_pile()[16]);
        assert(pile_view(inner@)[17] == default_pile()[17]);
        assert(pile_view(inner@)[18] == default_pile()[18]);
        assert(pile_view(inner@)[19] == default_pile()[19]);
        assert(pile_view(inner@)[20] == default_pile()[20]);
        assert(pile_view(inner@)[21] == default_pile()[21]);
        assert(pile_view(inner@) =~= default_pile());
        Deck { inner: inner }
    }
}

/// A fresh deck can be drawn from, and holds eighty copies of twenty-two cards.
pub proof fn lemma_default_pile_ready()
    ensures
        pile_ready(default_pile()),
        default_pile().len() == 22,
        pile_size(default_pile()) == 80,
{
    reveal_with_fuel(pile_size, 23);
}

/// Some entry of the pile is the card.
pub open spec fn pile_holds(p: Seq<(Card, Seq<(Suit, Rank)>)>, c: Card) -> bool {
    exists|i: int| 0 <= i < p.len() && #[trigger] p[i].0 == c
}

/// A fresh deck holds each of the twenty-two cards once, in the order in which `Card` lists
/// them, with these numbers of copies: Bang! 25, Missed! 12, Barrel 2, Dynamite 1, Jail 3,
/// Mustang 2, Remington 1, Carabine 1, Schofield 3, Scope 1, Volcanic 2, Winchester 1, Beer 6,
/// Cat Balou 4, Duel 3, Gatling 1, General Store 2, Indians! 2, Panic! 4, Saloon 1,
/// Stagecoach 2 and Wells Fargo 1.
pub proof fn lemma_default_pile_cards()
    ensures
        default_pile().len() == 22,
        forall|i: int| 0 <= i < 22 ==> #[trigger] default_pile()[i].0 == card_at(i),
        forall|i: int, j: int|
            0 <= i < j < 22 ==> #[trigger] default_pile()[i].0 != #[trigger] default_pile()[j].0,
        forall|c: Card| #[trigger] pile_holds(default_pile(), c),
        default_pile()[0].0 == Card::Bang && default_pile()[0].1.len() == 25,
        default_pile()[1].0 == Card::Miss && default_pile()[1].1.len() == 12,
        default_pile()[2].0 == Card::Barrel && default_pile()[2].1.len() == 2,
        default_pile()[3].0 == Card::Dynamite && default_pile()[3].1.len() == 1,
        default_pile()[4].0 == Card::Jail && default_pile()[4].1.len() == 3,
        default_pile()[5].0 == Card::Mustang && default_pile()[5].1.len() == 2,
        default_pile()[6].0 == Card::Remington && default_pile()[6].1.len() == 1,
        default_pile()[7].0 == Card::Carabine && default_pile()[7].1.len() == 1,
        default_pile()[8].0 == Card::Schofield && default_pile()[8].1.len() == 3,
        default_pile()[9].0 == Card::Scope && default_pile()[9].1.len() == 1,
        default_pile()[10].0 == Card::Volcanic && default_pile()[10].1.len() == 2,
        default_pile()[11].0 == Card::Winchester && default_pile()[11].1.len() == 1,
        default_pile()[12].0 == Card::Beer && default_pile()[12].1.len() == 6,
        default_pile()[13].0 == Card::CatBalou && default_pile()[13].1.len() == 4,
        default_pile()[14].0 == Card::Duel && default_pile()[14].1.len() == 3,
        default_pile()[15].0 == Card::Gatling && default_pile()[15].1.len() == 1,
        default_pile()[16].0 == Card::Store && default_pile()[16].1.len() == 2,
        default_pile()[17].0 == Card::Indians && default_pile()[17].1.len() == 2,
        default_pile()[18].0 == Card::Panic && default_pile()[18].1.len() == 4,
        default_pile()[19].0 == Card::Saloon && default_pile()[19].1.len() == 1,
        default_pile()[20].0 == Card::Stagecoach && default_pile()[20].1.len() == 2,
        default_pile()[21].0 == Card::WellsFargo && default_pile()[21].1.len() == 1,
{
    let p = default_pile();
    assert forall|c: Card| #[trigger] pile_holds(p, c) by {
        match c {
            Card::Bang => { assert(p[0].0 == c); },
            Card::Miss => { assert(p[1].0 == c); },
            Card::Barrel => { assert(p[2].0 == c); },
            Card::Dynamite => { assert(p[3].0 == c); },
            Card::Jail => { assert(p[4].0 == c); },
            Card::Mustang => { assert(p[5].0 == c); },
            Card::Remington => { assert(p[6].0 == c); },
            Card::Carabine => { assert(p[7].0 == c); },
            Card::Schofield => { assert(p[8].0 == c); },
            Card::Scope => { assert(p[9].0 == c); },
            Card::Volcanic => { assert(p[10].0 == c); },
            Card::Winchester => { assert(p[11].0 == c); },
            Card::Beer => { assert(p[12].0 == c); },
            Card::CatBalou => { assert(p[13].0 == c); },
            Card::Duel => { assert(p[14].0 == c); },
            Card::Gatling => { assert(p[15].0 == c); },
            Card::Store => { assert(p[16].0 == c); },
            Card::Indians => { assert(p[17].0 == c); },
            Card::Panic => { assert(p[18].0 == c); },
            Card::Saloon => { assert(p[19].0 == c); },
            Card::Stagecoach => { assert(p[20].0 == c); },
            Card::WellsFargo => { assert(p[21].0 == c); },
        }
    }
}

} // verus!
