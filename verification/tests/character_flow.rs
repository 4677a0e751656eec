use doskvol::character::{
    add_ability, add_contact, create, get, remove_ability, remove_contact, set_coin_stash,
    set_load, set_look, set_traits, set_xp,
};
use doskvol::crew::{create_crew, create_invite_with_code, join};
use doskvol::errors::AuthError;
use doskvol::session::Identity;
use doskvol::store::Store;
use doskvol::types::{Background, Class, CrewSpecialty, Heritage, Load, Vice, XP};

fn ident(name: &str) -> Identity {
    Identity::Authenticated { username: name.to_owned() }
}

/// Two crews: "a" owns a character in the first, "b" one in the second.
fn two_worlds() -> (Store, i32, i32, i32, i32) {
    let mut store = Store::new();
    let crew_a = create_crew(&mut store, &ident("a"), "Crew A", CrewSpecialty::Shadows, "a", "A")
        .unwrap()
        .id;
    let crew_b = create_crew(&mut store, &ident("b"), "Crew B", CrewSpecialty::Cult, "b", "B")
        .unwrap()
        .id;
    let char_a = create(&mut store, &ident("a"), "Asha", crew_a, "a", Class::Lurk).unwrap().id;
    let char_b = create(&mut store, &ident("b"), "Bram", crew_b, "b", Class::Cutter).unwrap().id;
    (store, crew_a, crew_b, char_a, char_b)
}

#[test]
fn create_requires_crew_membership() {
    let mut store = Store::new();
    let crew = create_crew(&mut store, &ident("dm"), "Crew", CrewSpecialty::Bravos, "dm", "DM")
        .unwrap()
        .id;
    let err = create(&mut store, &ident("outsider"), "X", crew, "outsider", Class::Hound)
        .unwrap_err();
    assert_eq!(err, AuthError::NotFound);
    assert_eq!(store.characters.len(), 0);

    let c = create(&mut store, &ident("dm"), "X", crew, "dm", Class::Hound).unwrap();
    assert_eq!(c.name, "X");
    assert_eq!(c.stress, 0);
    assert!(c.abilities.is_empty());
    assert_eq!(store.characters.len(), 1);
}

#[test]
fn reads_are_scoped_to_the_characters_crew() {
    let (store, _, _, char_a, char_b) = two_worlds();
    assert_eq!(get(&store, char_a, &ident("a")).unwrap().name, "Asha");
    // A cannot read B's character; the error is shaped as "not found".
    assert_eq!(get(&store, char_b, &ident("a")).unwrap_err(), AuthError::NotFound);
    assert_eq!(get(&store, char_a, &ident("b")).unwrap_err(), AuthError::NotFound);
    assert_eq!(get(&store, 999, &ident("a")).unwrap_err(), AuthError::NotFound);
}

#[test]
fn mutations_are_owner_only() {
    let (mut store, _, _, _, char_b) = two_worlds();
    // A cannot mutate B's character, and the refusal is indistinguishable
    // from the character not existing.
    let err = set_look(&mut store, &ident("a"), char_b, "new look").unwrap_err();
    assert_eq!(err, AuthError::NotFound);
    let missing = set_look(&mut store, &ident("a"), 999, "new look").unwrap_err();
    assert_eq!(err, missing);
    assert_eq!(store.characters[1].look.as_str(), "");

    set_look(&mut store, &ident("b"), char_b, "weathered coat").unwrap();
    assert_eq!(store.characters[1].look.as_str(), "weathered coat");
}

#[test]
fn crew_mates_cannot_mutate_each_others_characters() {
    let mut store = Store::new();
    let crew = create_crew(&mut store, &ident("dm"), "Crew", CrewSpecialty::Bravos, "dm", "DM")
        .unwrap()
        .id;
    let inv = create_invite_with_code(&mut store, &ident("dm"), crew, 1, "mate01").unwrap();
    join(&mut store, &ident("mate"), &inv.code, "Mate").unwrap();
    let id = create(&mut store, &ident("dm"), "X", crew, "dm", Class::Hound).unwrap().id;

    // The crew mate can read the sheet but not change it.
    assert!(get(&store, id, &ident("mate")).is_ok());
    assert_eq!(
        set_coin_stash(&mut store, &ident("mate"), id, 1, 1).unwrap_err(),
        AuthError::NotFound
    );
}

#[test]
fn traits_and_numbers_round_trip() {
    let (mut store, _, _, char_a, _) = two_worlds();
    set_traits(&mut store, &ident("a"), char_a, Heritage::Iruvia, Background::Law, Vice::Faith)
        .unwrap();
    set_coin_stash(&mut store, &ident("a"), char_a, 3, 7).unwrap();
    set_xp(
        &mut store,
        &ident("a"),
        char_a,
        XP { playbook: 2, insight: 1, prowess: 0, resolve: 3 },
    )
    .unwrap();
    set_load(&mut store, &ident("a"), char_a, Some(Load::Heavy)).unwrap();

    let c = get(&store, char_a, &ident("a")).unwrap();
    assert_eq!(c.heritage, Heritage::Iruvia);
    assert_eq!(c.background, Background::Law);
    assert_eq!(c.vice, Vice::Faith);
    assert_eq!((c.coin, c.stash), (3, 7));
    assert_eq!(c.xp.resolve, 3);
    assert_eq!(c.load, Some(Load::Heavy));
}

#[test]
fn abilities_add_and_remove_all_copies() {
    let (mut store, _, _, char_a, _) = two_worlds();
    add_ability(&mut store, &ident("a"), char_a, "Shadow").unwrap();
    add_ability(&mut store, &ident("a"), char_a, "Shadow").unwrap();
    add_ability(&mut store, &ident("a"), char_a, "Ghost Veil").unwrap();
    assert_eq!(store.characters[0].abilities, ["Shadow", "Shadow", "Ghost Veil"]);

    remove_ability(&mut store, &ident("a"), char_a, "Shadow").unwrap();
    assert_eq!(store.characters[0].abilities, ["Ghost Veil"]);
}

#[test]
fn contacts_track_friends_and_rivals_separately() {
    let (mut store, _, _, char_a, _) = two_worlds();
    add_contact(&mut store, &ident("a"), char_a, "Telda", true).unwrap();
    add_contact(&mut store, &ident("a"), char_a, "Telda", false).unwrap();
    assert_eq!(store.characters[0].contacts.friends, ["Telda"]);
    assert_eq!(store.characters[0].contacts.rivals, ["Telda"]);

    remove_contact(&mut store, &ident("a"), char_a, "Telda", false).unwrap();
    assert_eq!(store.characters[0].contacts.friends, ["Telda"]);
    assert!(store.characters[0].contacts.rivals.is_empty());
}

#[test]
fn anonymous_callers_are_rejected_outright() {
    let (mut store, _, _, char_a, _) = two_worlds();
    assert_eq!(
        set_look(&mut store, &Identity::Anonymous, char_a, "x").unwrap_err(),
        AuthError::NotAuthenticated
    );
    assert_eq!(get(&store, char_a, &Identity::Anonymous).unwrap_err(), AuthError::NotAuthenticated);
}
