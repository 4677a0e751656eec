use doskvol::crew::{
    create_crew, create_invite, create_invite_with_code, delete_invite, get_crew, get_invites,
    get_my_crews, get_player_display_name, is_in_crew, join,
};
use doskvol::errors::AuthError;
use doskvol::session::Identity;
use doskvol::store::{CrewInvite, Store};
use doskvol::types::CrewSpecialty;

fn ident(name: &str) -> Identity {
    Identity::Authenticated { username: name.to_owned() }
}

fn store_with_crew(dm: &str) -> (Store, i32) {
    let mut store = Store::new();
    let crew = create_crew(&mut store, &ident(dm), "The Silver Nails", CrewSpecialty::Bravos, dm, "The Boss")
        .unwrap();
    (store, crew.id)
}

#[test]
fn create_crew_enrolls_the_leader() {
    let (store, crew_id) = store_with_crew("dm");
    assert!(is_in_crew(&store, crew_id, "dm"));
    assert_eq!(store.crews.len(), 1);
    assert_eq!(store.crews[0].dm_id, "dm");
    assert_eq!(store.members.len(), 1);
    assert_eq!(store.members[0].display_name, "The Boss");
}

#[test]
fn create_crew_requires_the_matching_identity() {
    let mut store = Store::new();
    let err = create_crew(&mut store, &ident("mallory"), "Crew", CrewSpecialty::Cult, "dm", "X")
        .unwrap_err();
    assert_eq!(err, AuthError::NotFound);
    let err = create_crew(&mut store, &Identity::Anonymous, "Crew", CrewSpecialty::Cult, "dm", "X")
        .unwrap_err();
    assert_eq!(err, AuthError::NotAuthenticated);
    assert_eq!(store.crews.len(), 0);
}

#[test]
fn get_crew_is_members_only() {
    let (store, crew_id) = store_with_crew("dm");
    let crew = get_crew(&store, crew_id, &ident("dm")).unwrap();
    assert_eq!(crew.name, "The Silver Nails");
    assert_eq!(get_crew(&store, crew_id, &ident("outsider")).unwrap_err(), AuthError::NotFound);
    assert_eq!(
        get_crew(&store, crew_id, &Identity::Anonymous).unwrap_err(),
        AuthError::NotAuthenticated
    );
}

#[test]
fn invites_are_leader_only() {
    let (mut store, crew_id) = store_with_crew("dm");
    join_as(&mut store, crew_id, "player");
    let err = create_invite(&mut store, &ident("player"), crew_id, 3).unwrap_err();
    assert_eq!(err, AuthError::NotFound);
    let inv = create_invite(&mut store, &ident("dm"), crew_id, 3).unwrap();
    assert_eq!(inv.code.len(), 6);
    assert!(inv.code.chars().all(|c| c.is_ascii_alphanumeric()));
    assert_eq!(inv.used, 0);
    assert_eq!(inv.max_uses, 3);

    // The single-use invite that admitted the player was pruned, so only
    // the fresh invite is listed.
    let listed = get_invites(&store, &ident("dm"), crew_id).unwrap();
    assert_eq!(listed.len(), 1);
    assert_eq!(listed[0].code, inv.code);
    assert_eq!(get_invites(&store, &ident("player"), crew_id).unwrap_err(), AuthError::NotFound);
}

fn join_as(store: &mut Store, crew_id: i32, user: &str) {
    let inv = create_invite_with_code(store, &ident("dm"), crew_id, 1, &format!("jn-{user}"))
        .unwrap();
    join(store, &ident(user), &inv.code, user).unwrap();
}

#[test]
fn join_with_unknown_code_is_not_found() {
    let (mut store, _) = store_with_crew("dm");
    assert_eq!(
        join(&mut store, &ident("x"), "nosuch", "X").unwrap_err(),
        AuthError::NotFound
    );
    assert_eq!(store.members.len(), 1);
}

#[test]
fn join_twice_reports_already_member() {
    let (mut store, crew_id) = store_with_crew("dm");
    let inv = create_invite(&mut store, &ident("dm"), crew_id, 5).unwrap();
    join(&mut store, &ident("x"), &inv.code, "X").unwrap();
    assert_eq!(
        join(&mut store, &ident("x"), &inv.code, "X again").unwrap_err(),
        AuthError::AlreadyMember
    );
    assert_eq!(store.members.len(), 2);
}

#[test]
fn exhausted_invite_reports_exhaustion() {
    // A stored invite whose counter already reached its bound admits nobody.
    let (mut store, crew_id) = store_with_crew("dm");
    store.invites.push(CrewInvite {
        code: "spent0".to_owned(),
        crew_id,
        used: 1,
        max_uses: 1,
    });
    assert_eq!(
        join(&mut store, &ident("x"), "spent0", "X").unwrap_err(),
        AuthError::InviteExhausted
    );
    assert_eq!(store.members.len(), 1);
}

#[test]
fn single_use_invite_admits_exactly_one_member() {
    let (mut store, crew_id) = store_with_crew("dm");
    let inv = create_invite(&mut store, &ident("dm"), crew_id, 1).unwrap();

    // First redemption succeeds and spends the invite's last use.
    join(&mut store, &ident("x"), &inv.code, "X").unwrap();
    assert!(is_in_crew(&store, crew_id, "x"));
    assert_eq!(store.members.len(), 2);
    assert_eq!(store.invites.len(), 0);

    // The invite is now unusable: the pruned code no longer exists, so a
    // second redemption fails and no second membership row appears.
    let err = join(&mut store, &ident("y"), &inv.code, "Y").unwrap_err();
    assert_eq!(err, AuthError::NotFound);
    assert_eq!(store.members.len(), 2);
}

#[test]
fn multi_use_invite_counts_each_use() {
    let (mut store, crew_id) = store_with_crew("dm");
    let inv = create_invite(&mut store, &ident("dm"), crew_id, 2).unwrap();
    join(&mut store, &ident("x"), &inv.code, "X").unwrap();
    assert_eq!(store.invites[0].used, 1);
    join(&mut store, &ident("y"), &inv.code, "Y").unwrap();
    assert_eq!(store.invites.len(), 0);
    assert_eq!(store.members.len(), 3);
}

#[test]
fn delete_invite_is_leader_only() {
    let (mut store, crew_id) = store_with_crew("dm");
    join_as(&mut store, crew_id, "player");
    let inv = create_invite(&mut store, &ident("dm"), crew_id, 5).unwrap();
    assert_eq!(
        delete_invite(&mut store, &ident("player"), &inv.code).unwrap_err(),
        AuthError::NotFound
    );
    delete_invite(&mut store, &ident("dm"), &inv.code).unwrap();
    assert_eq!(store.invites.len(), 0);
}

#[test]
fn my_crews_lists_memberships_with_counts() {
    let (mut store, crew_id) = store_with_crew("dm");
    join_as(&mut store, crew_id, "player");

    let mine = get_my_crews(&store, &ident("player")).unwrap();
    assert_eq!(mine.len(), 1);
    assert_eq!(mine[0].id, crew_id);
    assert_eq!(mine[0].dm_name, "The Boss");
    assert_eq!(mine[0].player_count, 2);

    let nobody = get_my_crews(&store, &ident("outsider")).unwrap();
    assert!(nobody.is_empty());
}

#[test]
fn display_names_are_members_only() {
    let (mut store, crew_id) = store_with_crew("dm");
    join_as(&mut store, crew_id, "player");
    assert_eq!(
        get_player_display_name(&store, &ident("dm"), crew_id, "player").unwrap(),
        "player"
    );
    assert_eq!(
        get_player_display_name(&store, &ident("outsider"), crew_id, "player").unwrap_err(),
        AuthError::NotFound
    );
}
