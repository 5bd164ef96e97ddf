use as_manager::database::models::{Platoon, Player, Team};
use as_manager::database::{DatabaseError, Repository};
use as_manager::domain::{self, PrimaryKey};
use as_manager::server::{
    create_new_player, create_new_team, find_platoon_for_id, find_player_for_email,
    find_player_for_id, find_team_for_id, get_all_players, get_filtered_platoons,
    get_filtered_players, get_filtered_teams, get_players_for_team, get_teams, load_team_by_id,
    save_player, AppError, EditPlayerForm,
};

fn seeded() -> Repository {
    let players = vec![
        Player {
            id: 1,
            email: "a@example.com".to_string(),
            tag_name: "alpha".to_string(),
            active: true,
            team_id: Some(1),
            password_hash: "h".to_string(),
        },
        Player {
            id: 2,
            email: "b@example.com".to_string(),
            tag_name: "beta".to_string(),
            active: false,
            team_id: None,
            password_hash: "h".to_string(),
        },
    ];
    let teams = vec![Team {
        id: 1,
        name: "Squad".to_string(),
        contact_person_id: Some(1),
        platoon_id: Some(3),
    }];
    let platoons = vec![Platoon {
        id: 3,
        team: "A".to_string(),
        name: "Third".to_string(),
        motto: "ever on".to_string(),
        leader_id: Some(1),
        deputy_leader_id: None,
    }];
    Repository::from_rows(players, teams, platoons).unwrap()
}

#[test]
fn rows_become_domain_values() {
    let repo = seeded();
    let players = get_all_players(&repo).unwrap();
    assert_eq!(players.len(), 2);
    assert_eq!(players[0].id, Some(1));
    assert_eq!(players[0].email, "a@example.com");
    assert_eq!(players[0].team_id, Some(1));
    assert_eq!(players[1].active, false);
}

#[test]
fn optional_id_lookups() {
    let repo = seeded();
    assert_eq!(find_player_for_id(None, &repo), Ok(None));
    let p = find_player_for_id(Some(2), &repo).unwrap().unwrap();
    assert_eq!(p.tag_name, "beta");
    assert_eq!(find_player_for_id(Some(9), &repo), Ok(None));

    assert_eq!(find_team_for_id(None, &repo), Ok(None));
    let t = find_team_for_id(Some(1), &repo).unwrap().unwrap();
    assert_eq!(t.name, "Squad");

    assert_eq!(find_platoon_for_id(None, &repo), Ok(None));
    let pl = find_platoon_for_id(Some(3), &repo).unwrap().unwrap();
    assert_eq!(pl.motto, "ever on");
}

#[test]
fn empty_email_is_no_lookup() {
    let repo = seeded();
    assert_eq!(find_player_for_email(String::new(), &repo), Ok(None));
    let p = find_player_for_email("a@example.com".to_string(), &repo)
        .unwrap()
        .unwrap();
    assert_eq!(p.id, Some(1));
}

#[test]
fn load_team_by_id_misses_as_entity_not_found() {
    let repo = seeded();
    assert_eq!(load_team_by_id(1, &repo).unwrap().name, "Squad");
    assert_eq!(
        load_team_by_id(2, &repo),
        Err(AppError::Database(DatabaseError::EntityNotFound))
    );
}

#[test]
fn filtered_listings() {
    let repo = seeded();
    assert_eq!(get_teams(&repo).unwrap().len(), 1);
    assert_eq!(get_filtered_players("ALPHA".to_string(), &repo).unwrap().len(), 1);
    assert_eq!(get_filtered_teams("squ".to_string(), &repo).unwrap().len(), 1);
    assert_eq!(get_filtered_platoons("third".to_string(), &repo).unwrap().len(), 1);
    let members = get_players_for_team(1, &repo).unwrap();
    assert_eq!(members.len(), 1);
    assert_eq!(members[0].id, Some(1));
}

#[test]
fn create_new_team_appends() {
    let mut repo = seeded();
    create_new_team("Fresh".to_string(), &mut repo).unwrap();
    assert_eq!(get_teams(&repo).unwrap().len(), 2);
    assert_eq!(load_team_by_id(2, &repo).unwrap().name, "Fresh");
}

#[test]
fn player_edit_form_is_applied() {
    let mut repo = seeded();
    let form = EditPlayerForm {
        id: 2,
        email: "b2@example.com".to_string(),
        tag_name: "beta2".to_string(),
        active: true,
        team_id: Some(1),
    };
    save_player(form, &mut repo).unwrap();

    let p = find_player_for_id(Some(2), &repo).unwrap().unwrap();
    assert_eq!(p.email, "b2@example.com");
    assert_eq!(p.tag_name, "beta2");
    assert!(p.active);
    assert_eq!(p.team_id, Some(1));
}

#[test]
fn player_edit_form_for_missing_row_fails() {
    let mut repo = seeded();
    let form = EditPlayerForm {
        id: 77,
        email: "x@example.com".to_string(),
        tag_name: "x".to_string(),
        active: false,
        team_id: None,
    };
    assert_eq!(
        save_player(form, &mut repo),
        Err(AppError::Database(DatabaseError::EntityNotFound))
    );
}

#[test]
fn new_player_form_creates_without_credentials() {
    let mut repo = seeded();
    create_new_player("c@example.com".to_string(), "gamma".to_string(), &mut repo).unwrap();

    let p = find_player_for_email("c@example.com".to_string(), &repo)
        .unwrap()
        .unwrap();
    assert_eq!(p.id, Some(3));
    assert!(p.active);

    // A player created without credentials cannot authenticate.
    let creds = as_manager::auth::Credentials::new(
        "c@example.com".to_string(),
        String::new(),
    );
    assert!(as_manager::auth::authenticate(creds, &repo).is_err());

    // The uniqueness prechecks guard this path too.
    assert_eq!(
        create_new_player("c@example.com".to_string(), "other".to_string(), &mut repo),
        Err(AppError::Database(DatabaseError::CreateUserEmailExists(
            "c@example.com".to_string()
        )))
    );
}

#[test]
fn primary_keys_expose_ids() {
    let repo = seeded();
    let player = find_player_for_id(Some(1), &repo).unwrap().unwrap();
    assert_eq!(player.key(), Some(1));
    let team = find_team_for_id(Some(1), &repo).unwrap().unwrap();
    assert_eq!(team.key(), Some(1));
    let platoon = find_platoon_for_id(Some(3), &repo).unwrap().unwrap();
    assert_eq!(platoon.key(), Some(3));

    let fresh = domain::Player {
        id: None,
        email: String::new(),
        tag_name: String::new(),
        active: true,
        team_id: None,
    };
    assert_eq!(fresh.key(), None);
}
