use coup::action::{Action, PlayerID};
use coup::field::GameField;
use coup::identity::{Identity, IdentitySet};

fn all_actions(target: PlayerID) -> Vec<Action> {
    vec![
        Action::Income,
        Action::ForeignAid,
        Action::Tax,
        Action::Assassinate(target),
        Action::Coup(target),
        Action::Steal(target),
        Action::Exchange,
        Action::BlockForeignAid,
        Action::BlockAssassination,
        Action::BlockStealCaptain,
        Action::BlockStealAmbassador,
    ]
}

#[test]
fn untargeted_actions_cannot_be_blocked() {
    for action in [
        Action::Income,
        Action::Tax,
        Action::Exchange,
        Action::BlockForeignAid,
        Action::BlockAssassination,
        Action::BlockStealCaptain,
        Action::BlockStealAmbassador,
    ] {
        for candidate in 0..=255u8 {
            assert_eq!(action.blockable(&PlayerID(candidate)), None);
        }
    }
}

#[test]
fn coup_cannot_be_blocked_even_by_its_target() {
    let action = Action::Coup(PlayerID(3));
    for candidate in 0..=255u8 {
        assert_eq!(action.blockable(&PlayerID(candidate)), None);
    }
}

#[test]
fn foreign_aid_can_be_blocked_by_anyone_in_one_way() {
    for candidate in 0..=255u8 {
        assert_eq!(
            Action::ForeignAid.blockable(&PlayerID(candidate)),
            Some(vec![Action::BlockForeignAid])
        );
    }
}

#[test]
fn assassination_can_be_blocked_by_its_target_only() {
    let action = Action::Assassinate(PlayerID(2));
    assert_eq!(action.blockable(&PlayerID(2)), Some(vec![Action::BlockAssassination]));
    for candidate in 0..=255u8 {
        if candidate != 2 {
            assert_eq!(action.blockable(&PlayerID(candidate)), None);
        }
    }
}

#[test]
fn theft_can_be_blocked_by_its_target_in_two_ways() {
    let action = Action::Steal(PlayerID(7));
    assert_eq!(
        action.blockable(&PlayerID(7)),
        Some(vec![Action::BlockStealCaptain, Action::BlockStealAmbassador])
    );
    assert_eq!(action.blockable(&PlayerID(0)), None);
    assert_eq!(action.blockable(&PlayerID(8)), None);
}

#[test]
fn income_foreign_aid_and_coup_cannot_be_challenged() {
    assert!(!Action::Income.challengable());
    assert!(!Action::ForeignAid.challengable());
    assert!(!Action::Coup(PlayerID(1)).challengable());
}

#[test]
fn actions_that_claim_an_identity_can_be_challenged() {
    for action in all_actions(PlayerID(1)) {
        let expected = !matches!(action, Action::Income | Action::ForeignAid | Action::Coup(_));
        assert_eq!(action.challengable(), expected);
        assert_eq!(action.claimed_identity().is_some(), expected);
    }
}

#[test]
fn each_action_claims_its_identity() {
    let target = PlayerID(0);
    assert_eq!(Action::Tax.claimed_identity(), Some(Identity::Duke));
    assert_eq!(Action::BlockForeignAid.claimed_identity(), Some(Identity::Duke));
    assert_eq!(Action::Assassinate(target).claimed_identity(), Some(Identity::Assassin));
    assert_eq!(Action::BlockAssassination.claimed_identity(), Some(Identity::Contessa));
    assert_eq!(Action::Steal(target).claimed_identity(), Some(Identity::Captain));
    assert_eq!(Action::BlockStealCaptain.claimed_identity(), Some(Identity::Captain));
    assert_eq!(Action::BlockStealAmbassador.claimed_identity(), Some(Identity::Ambassador));
    assert_eq!(Action::Exchange.claimed_identity(), Some(Identity::Ambassador));
    assert_eq!(Action::Income.claimed_identity(), None);
    assert_eq!(Action::ForeignAid.claimed_identity(), None);
    assert_eq!(Action::Coup(target).claimed_identity(), None);
}

#[test]
fn actions_are_announced_by_their_names() {
    let target = PlayerID(0);
    assert_eq!(Action::Income.name(), "Income");
    assert_eq!(Action::ForeignAid.name(), "Foreign Aid");
    assert_eq!(Action::Tax.name(), "Tax");
    assert_eq!(Action::Assassinate(target).name(), "Assassinate");
    assert_eq!(Action::Coup(target).name(), "Coup");
    assert_eq!(Action::Steal(target).name(), "Steal");
    assert_eq!(Action::Exchange.name(), "Exchange");
    assert_eq!(Action::BlockForeignAid.name(), "Block Foreign Aid");
    assert_eq!(Action::BlockAssassination.name(), "Contess");
    assert_eq!(Action::BlockStealCaptain.name(), "Block as Captain");
    assert_eq!(Action::BlockStealAmbassador.name(), "Block as Ambassador");
}

#[test]
fn is_among_finds_an_action_in_a_list() {
    let list = vec![Action::Income, Action::Steal(PlayerID(1))];
    assert!(Action::Income.is_among(&list));
    assert!(Action::Steal(PlayerID(1)).is_among(&list));
    assert!(!Action::Steal(PlayerID(2)).is_among(&list));
    assert!(!Action::Tax.is_among(&Vec::new()));
}

#[test]
fn identities_have_their_names() {
    assert_eq!(Identity::Ambassador.name(), "Ambassador");
    assert_eq!(Identity::Assassin.name(), "Assassin");
    assert_eq!(Identity::Contessa.name(), "Contessa");
    assert_eq!(Identity::Captain.name(), "Captain");
    assert_eq!(Identity::Duke.name(), "Duke");
}

#[test]
fn identity_set_lists_its_members_in_catalogue_order() {
    let mut set = IdentitySet::empty();
    assert_eq!(set.len(), 0);
    assert!(set.to_vec().is_empty());
    set.insert(Identity::Duke);
    set.insert(Identity::Assassin);
    set.insert(Identity::Duke);
    assert_eq!(set.len(), 2);
    assert_eq!(set.to_vec(), vec![Identity::Assassin, Identity::Duke]);
    assert!(set.contains(Identity::Duke));
    assert!(!set.contains(Identity::Captain));
    assert_eq!(
        IdentitySet::all().to_vec(),
        vec![
            Identity::Ambassador,
            Identity::Assassin,
            Identity::Contessa,
            Identity::Captain,
            Identity::Duke,
        ]
    );
}

#[test]
fn a_new_deck_holds_each_identity_as_often_as_asked() {
    let mut set = IdentitySet::empty();
    set.insert(Identity::Captain);
    set.insert(Identity::Ambassador);
    let field = GameField::new(set, 3);
    assert_eq!(
        field.deck,
        vec![
            Identity::Ambassador,
            Identity::Ambassador,
            Identity::Ambassador,
            Identity::Captain,
            Identity::Captain,
            Identity::Captain,
        ]
    );
    assert_eq!(GameField::new(IdentitySet::all(), 4).len(), 20);
    assert_eq!(GameField::new(IdentitySet::all(), 0).len(), 0);
    assert_eq!(GameField::new(IdentitySet::empty(), 4).len(), 0);
}

#[test]
fn cards_are_drawn_from_the_front_and_put_back_at_the_end() {
    let mut set = IdentitySet::empty();
    set.insert(Identity::Duke);
    set.insert(Identity::Contessa);
    let mut field = GameField::new(set, 1);
    assert_eq!(field.draw(), Some(Identity::Contessa));
    field.put_back(Identity::Captain);
    assert_eq!(field.deck, vec![Identity::Duke, Identity::Captain]);
    assert_eq!(field.draw(), Some(Identity::Duke));
    assert_eq!(field.draw(), Some(Identity::Captain));
    assert_eq!(field.draw(), None);
    assert_eq!(field.len(), 0);
}

#[test]
fn actions_are_written_as_in_code() {
    for target in [0u8, 7, 10, 99, 100, 255] {
        for action in all_actions(PlayerID(target)) {
            assert_eq!(action.to_code(), format!("{:?}", action));
        }
    }
    assert_eq!(Action::Steal(PlayerID(12)).to_code(), "Steal(PlayerID(12))");
    assert_eq!(Action::BlockStealCaptain.to_code(), "BlockStealCaptain");
}
