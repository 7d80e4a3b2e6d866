use bang::game::{
    AttrNum, Attribute, Card, CardPile, Character, Config, Deck, LowerCard, Player, Rank, Role,
    Suit,
};

#[test]
fn pull_card() {
    let mut player = Player::default();
    assert_eq!(player.upper_hand().len(), 0);
    let mut deck = Deck::default();
    let default = Deck::default().extract_inner();
    player.pull_card(&mut deck, &default);
    assert_ne!(player.upper_hand().len(), 0);
}

#[test]
fn attributes() {
    let config = Config::new(Some(vec![Attribute::ExtraRange, Attribute::Barrel]));
    let mut player = Player::new(Character::CalamityJanet, Role::Sheriff, Some(&config), None);
    assert!(player.attr().len() == 0);
    assert!(player.attr_num().len() == 0);

    player.add_attr(Attribute::Jailed);
    assert!(player.attr().len() == 1);
    assert!(player.attr_num().len() == 0);

    player.add_attr(Attribute::ExtraRange);
    assert!(player.attr().len() == 1);
    assert!(player.attr_num().len() == 1);

    player.add_attr(Attribute::ExtraRange);
    assert!(player.attr().len() == 1);
    assert!(player.attr_num().len() == 1);

    player.add_attr(Attribute::ExtraDistance);
    assert!(player.attr().len() == 2);
    assert!(player.attr_num().len() == 1);
    {
        let res = player.rm_attr(&Attribute::Dynamite);
        assert!(player.attr().len() == 2);
        assert!(player.attr_num().len() == 1);
        assert!(res == false);
    }
    {
        let res = player.rm_attr(&Attribute::Jailed);
        assert!(player.attr().len() == 1);
        assert!(player.attr_num().len() == 1);
        assert!(res == true);
    }
    {
        let res = player.rm_attr(&Attribute::ExtraRange);
        assert!(player.attr().len() == 1);
        assert!(player.attr_num().len() == 1);
        assert!(res == true);
    }
    {
        let res = player.has_attr(&Attribute::ExtraRange);
        assert!(res == true);
    }
    {
        let res = player.rm_attr(&Attribute::ExtraRange);
        assert!(player.attr().len() == 1);
        assert!(player.attr_num().len() == 0);
        assert!(res == true);
    }
    {
        let res = player.has_attr(&Attribute::ExtraRange);
        assert!(res == false);
    }
    {
        let res = player.has_attr(&Attribute::Dynamite);
        assert!(res == false);
    }
    {
        let res = player.has_attr(&Attribute::ExtraDistance);
        assert!(res == true);
    }
}

#[test]
fn steal() {
    let mut player1 = Player::default();
    let mut player2 = Player::default();
    let mut deck = Deck::default();
    let default = Deck::default().extract_inner();
    player1.pull_card(&mut deck, &default);
    assert!(player1.upper_hand().len() > 0 && player2.upper_hand().len() == 0);
    player2.steal_upper(&mut player1);
    assert!(player1.upper_hand().len() == 0 && player2.upper_hand().len() > 0);
}

#[test]
fn fresh_deck_has_every_copy() {
    let deck = Deck::default();
    assert_eq!(deck.len(), 22);
    let total: usize = deck.inner().iter().map(|e| e.1.len()).sum();
    assert_eq!(total, 80);
    assert!(deck.inner().iter().all(|e| !e.1.is_empty()));
}

#[test]
fn drawing_takes_one_copy() {
    let mut deck = Deck::default();
    let default = Deck::default().extract_inner();
    let drawn = deck.rm_card(&default);
    let total: usize = deck.inner().iter().map(|e| e.1.len()).sum();
    assert_eq!(total, 79);
    let fresh = Deck::default();
    assert!(fresh
        .inner()
        .iter()
        .any(|e| e.0 == drawn.0 && e.1.contains(&(drawn.1, drawn.2))));
}

#[test]
fn drawing_a_chosen_copy() {
    let mut deck = Deck::default();
    let default = Deck::default().extract_inner();
    let drawn = deck.rm_card_at(&default, 0, 0);
    assert_eq!(drawn, (Card::Bang, Suit::Spade, Rank::Ace));
    assert_eq!(deck.inner()[0].1.len(), 24);
    assert_eq!(deck.inner()[0].1[0], (Suit::Heart, Rank::Ace));
    // The only Dynamite goes, and the last card takes its place.
    let drawn = deck.rm_card_at(&default, 3, 0);
    assert_eq!(drawn, (Card::Dynamite, Suit::Heart, Rank::Two));
    assert_eq!(deck.len(), 21);
    assert_eq!(deck.inner()[3].0, Card::WellsFargo);
}

#[test]
fn an_emptied_deck_is_restocked() {
    let small: CardPile = vec![(Card::Beer, vec![(Suit::Heart, Rank::Six)])];
    let mut deck = Deck::new(small);
    let default = Deck::default().extract_inner();
    let drawn = deck.rm_card(&default);
    assert_eq!(drawn, (Card::Beer, Suit::Heart, Rank::Six));
    assert_eq!(deck.len(), 22);
    assert!(deck.restock(Deck::default().extract_inner()));
    assert_eq!(deck.len(), 22);
}

#[test]
fn card_from_index() {
    assert_eq!(Card::from_index(0), Card::Bang);
    assert_eq!(Card::from_index(9), Card::Scope);
    assert_eq!(Card::from_index(21), Card::WellsFargo);
}

#[test]
fn cards_and_attributes_convert() {
    assert_eq!(LowerCard::try_from(Card::Mustang), Ok(LowerCard::Mustang));
    assert!(LowerCard::try_from(Card::Bang).is_err());
    assert_eq!(Card::from(LowerCard::Scope), Card::Scope);
    assert_eq!(Attribute::try_from(Card::Barrel), Ok(Attribute::Barrel));
    assert_eq!(Attribute::try_from(Card::Mustang), Ok(Attribute::ExtraRange));
    assert_eq!(Attribute::try_from(Card::Scope), Ok(Attribute::ExtraDistance));
    assert_eq!(Attribute::try_from(Card::Jail), Ok(Attribute::Jailed));
    assert!(Attribute::try_from(Card::Beer).is_err());
    assert_eq!(Attribute::from(&Character::ElGringo), Attribute::HitStealCard);
    assert_eq!(AttrNum::try_from(&Attribute::Barrel), Ok(AttrNum::Barrel));
    assert!(AttrNum::try_from(&Attribute::Jailed).is_err());
    assert_eq!(Attribute::from(&AttrNum::ExtraDistance), Attribute::ExtraDistance);
}

#[test]
fn try_num_follows_the_config() {
    let only_barrel = Config::new(Some(vec![Attribute::Barrel]));
    assert_eq!(Attribute::Barrel.try_num(Some(&only_barrel)), Some(AttrNum::Barrel));
    assert_eq!(Attribute::ExtraRange.try_num(Some(&only_barrel)), None);
    assert_eq!(Attribute::ExtraRange.try_num(None), Some(AttrNum::ExtraRange));
    let open = Config::default();
    assert!(open.num_attrs().is_none());
    assert_eq!(Attribute::ExtraRange.try_num(Some(&open)), Some(AttrNum::ExtraRange));
    assert_eq!(Attribute::Jailed.try_num(None), None);
}

#[test]
fn characters_with_lowered_health() {
    let p = Player::new(Character::ElGringo, Role::Outlaw, None, None);
    assert_eq!(p.health(), 3);
    assert!(p.has_attr(&Attribute::LoweredMaxHealth));
    let q = Player::new(Character::BartCassidy, Role::Deputy, None, Some(vec![Attribute::Barrel]));
    assert_eq!(q.health(), 4);
    assert!(!q.has_attr(&Attribute::LoweredMaxHealth));
    assert!(q.has_attr(&Attribute::Barrel));
    assert!(q.has_attr_num(&AttrNum::Barrel));
    assert_eq!(q.attr_num(), vec![(AttrNum::Barrel, 1)]);
    assert_eq!(*q.character(), Character::BartCassidy);
    assert_eq!(*q.role(), Role::Deputy);
}

#[test]
fn counted_attributes() {
    let mut p = Player::default();
    p.add_attr_num(AttrNum::ExtraRange);
    p.add_attr_num(AttrNum::ExtraRange);
    assert_eq!(p.attr_num(), vec![(AttrNum::ExtraRange, 2)]);
    assert_eq!(p.rm_attr_num(&AttrNum::ExtraRange), Some(1));
    assert_eq!(p.rm_attr_num(&AttrNum::ExtraRange), Some(0));
    assert_eq!(p.rm_attr_num(&AttrNum::ExtraRange), None);
    assert!(!p.has_attr_num(&AttrNum::ExtraRange));
}

#[test]
fn adding_then_removing_an_attribute() {
    let mut p = Player::default();
    p.add_attr(Attribute::Jailed);
    assert!(p.has_attr(&Attribute::Jailed));
    assert!(p.rm_attr(&Attribute::Jailed));
    assert!(!p.has_attr(&Attribute::Jailed));
    assert!(!p.rm_attr(&Attribute::Jailed));
}

#[test]
fn hands() {
    let mut p = Player::default();
    assert_eq!(p.rm_upper(0), None);
    assert_eq!(p.rm_lower(0), None);
    p.add_upper(Card::Bang);
    p.add_upper(Card::Miss);
    p.add_lower(LowerCard::Jail);
    assert_eq!(p.rm_upper(0), Some(Card::Bang));
    assert_eq!(p.upper_hand().clone(), vec![Card::Miss]);
    assert_eq!(p.rm_lower(0), Some(LowerCard::Jail));
    assert!(p.lower_hand().is_empty());
}

#[test]
fn stealing_from_an_empty_hand() {
    let mut thief = Player::default();
    let mut target = Player::default();
    assert!(!thief.steal_lower(&mut target));
    assert!(!thief.steal_upper(&mut target));
    target.add_lower(LowerCard::Scope);
    assert!(thief.steal_lower(&mut target));
    assert_eq!(thief.lower_hand().clone(), vec![LowerCard::Scope]);
    assert!(target.lower_hand().is_empty());
}

#[test]
fn stealing_a_chosen_card() {
    let mut thief = Player::default();
    let mut target = Player::default();
    target.add_upper(Card::Bang);
    target.add_upper(Card::Beer);
    thief.steal_upper_at(&mut target, 1);
    assert_eq!(thief.upper_hand().clone(), vec![Card::Beer]);
    assert_eq!(target.upper_hand().clone(), vec![Card::Bang]);
    target.add_lower(LowerCard::Mustang);
    thief.steal_lower_at(&mut target, 0);
    assert_eq!(thief.lower_hand().clone(), vec![LowerCard::Mustang]);
}

#[test]
fn lower_cards_round_trip() {
    for l in [LowerCard::Jail, LowerCard::Mustang, LowerCard::Dynamite, LowerCard::Scope] {
        assert_eq!(LowerCard::try_from(Card::from(l)), Ok(l));
    }
    for n in [AttrNum::ExtraRange, AttrNum::ExtraDistance, AttrNum::Barrel] {
        assert_eq!(AttrNum::try_from(&Attribute::from(&n)), Ok(n));
    }
}

#[test]
fn counted_attributes_stay_out_of_the_plain_set() {
    let config = Config::new(Some(vec![Attribute::Barrel]));
    let mut p = Player::new(Character::Jourdannais, Role::Renegade, Some(&config), Some(vec![Attribute::Barrel]));
    p.add_attr(Attribute::Barrel);
    p.add_attr(Attribute::ExtraRange);
    p.add_attr(Attribute::Jailed);
    assert!(!p.attr().contains(&Attribute::Barrel));
    assert!(p.attr().contains(&Attribute::ExtraRange));
    for a in p.attr().clone() {
        assert_eq!(a.try_num(p.config()), None);
    }
    assert_eq!(p.attr_num(), vec![(AttrNum::Barrel, 2)]);
}

#[test]
fn methods_keep_who_the_player_is() {
    let mut p = Player::new(Character::PaulRegret, Role::Sheriff, None, None);
    let mut other = Player::default();
    let mut deck = Deck::default();
    let default = Deck::default().extract_inner();
    p.add_attr(Attribute::Jailed);
    p.add_attr_num(AttrNum::Barrel);
    p.rm_attr(&Attribute::Jailed);
    p.rm_attr_num(&AttrNum::Barrel);
    p.pull_card(&mut deck, &default);
    other.steal_upper(&mut p);
    p.add_lower(LowerCard::Jail);
    other.steal_lower(&mut p);
    assert_eq!(*p.character(), Character::PaulRegret);
    assert_eq!(*p.role(), Role::Sheriff);
    assert!(matches!(p.weapon(), bang::game::Weapon::Colt45));
    assert_eq!(p.health(), 3);
}
