use as_manager::database::models::{Platoon, Player, Team};
use as_manager::database::{
    create_player, create_team, find_player_for_email, find_player_for_id, find_team_for_id,
    get_all_players, get_all_teams, get_players_for_name_filter, get_players_for_team,
    get_platoons_for_name_filter, get_teams_for_name_filter, save_player, DatabaseError,
    Repository,
};
use as_manager::domain;

fn player_row(id: i64, email: &str, tag_name: &str, team_id: Option<i64>) -> Player {
    Player {
        id,
        email: email.to_string(),
        tag_name: tag_name.to_string(),
        active: true,
        team_id,
        password_hash: String::new(),
    }
}

#[test]
fn create_team_round_trip() {
    let mut repo = Repository::new();
    create_team("Alpha Squad".to_string(), &mut repo).unwrap();

    let fetched = find_team_for_id(1, &repo).unwrap().unwrap();
    assert_eq!(fetched.id, 1);
    assert_eq!(fetched.name, "Alpha Squad");
    assert_eq!(fetched.contact_person_id, None);
    assert_eq!(fetched.platoon_id, None);
}

#[test]
fn create_team_assigns_increasing_ids() {
    let mut repo = Repository::new();
    create_team("A".to_string(), &mut repo).unwrap();
    create_team("B".to_string(), &mut repo).unwrap();

    let teams = get_all_teams(&repo).unwrap();
    assert_eq!(teams.len(), 2);
    assert_eq!(teams[0].id, 1);
    assert_eq!(teams[1].id, 2);
    assert_eq!(teams[1].name, "B");
}

#[test]
fn create_player_rejects_duplicate_email() {
    let mut repo = Repository::new();
    create_player(
        "a@example.com".to_string(),
        "alpha".to_string(),
        "h1".to_string(),
        &mut repo,
    )
    .unwrap();

    let result = create_player(
        "a@example.com".to_string(),
        "beta".to_string(),
        "h2".to_string(),
        &mut repo,
    );
    assert_eq!(
        result,
        Err(DatabaseError::CreateUserEmailExists("a@example.com".to_string()))
    );

    // No new row was written.
    let players = get_all_players(&repo).unwrap();
    assert_eq!(players.len(), 1);
    assert_eq!(players[0].tag_name, "alpha");
}

#[test]
fn create_player_rejects_duplicate_tag_name() {
    let mut repo = Repository::new();
    create_player(
        "a@example.com".to_string(),
        "alpha".to_string(),
        "h1".to_string(),
        &mut repo,
    )
    .unwrap();

    let result = create_player(
        "b@example.com".to_string(),
        "alpha".to_string(),
        "h2".to_string(),
        &mut repo,
    );
    assert_eq!(
        result,
        Err(DatabaseError::CreateUserTagNameExists("alpha".to_string()))
    );
    assert_eq!(get_all_players(&repo).unwrap().len(), 1);
}

#[test]
fn create_player_starts_active_without_team() {
    let mut repo = Repository::new();
    create_player(
        "a@example.com".to_string(),
        "alpha".to_string(),
        "h1".to_string(),
        &mut repo,
    )
    .unwrap();

    let p = find_player_for_id(1, &repo).unwrap().unwrap();
    assert_eq!(p.id, 1);
    assert!(p.active);
    assert_eq!(p.team_id, None);
    assert_eq!(p.email, "a@example.com");
    assert_eq!(p.password_hash, "h1");
}

#[test]
fn save_player_updates_scalar_fields_only() {
    let mut repo = Repository::new();
    create_player(
        "a@example.com".to_string(),
        "alpha".to_string(),
        "h1".to_string(),
        &mut repo,
    )
    .unwrap();

    let update = domain::Player {
        id: Some(1),
        email: "new@example.com".to_string(),
        tag_name: "renamed".to_string(),
        active: false,
        team_id: Some(7),
    };
    save_player(update, &mut repo).unwrap();

    let p = find_player_for_id(1, &repo).unwrap().unwrap();
    assert_eq!(p.email, "new@example.com");
    assert_eq!(p.tag_name, "renamed");
    assert!(!p.active);
    assert_eq!(p.team_id, Some(7));
    // The stored digest is untouched by a profile update.
    assert_eq!(p.password_hash, "h1");
}

#[test]
fn save_player_missing_row_is_entity_not_found() {
    let mut repo = Repository::new();
    let update = domain::Player {
        id: Some(42),
        email: "x@example.com".to_string(),
        tag_name: "x".to_string(),
        active: true,
        team_id: None,
    };
    assert_eq!(save_player(update, &mut repo), Err(DatabaseError::EntityNotFound));
    assert_eq!(get_all_players(&repo).unwrap().len(), 0);
}

#[test]
fn find_player_for_email_returns_first_match() {
    let rows = vec![
        player_row(1, "a@example.com", "alpha", None),
        player_row(2, "b@example.com", "beta", None),
    ];
    let repo = Repository::from_rows(rows, Vec::new(), Vec::new()).unwrap();

    let p = find_player_for_email("b@example.com", &repo).unwrap().unwrap();
    assert_eq!(p.id, 2);
    assert!(find_player_for_email("c@example.com", &repo).unwrap().is_none());
}

#[test]
fn from_rows_rejects_duplicate_ids() {
    let rows = vec![
        player_row(1, "a@example.com", "alpha", None),
        player_row(1, "b@example.com", "beta", None),
    ];
    assert!(Repository::from_rows(rows, Vec::new(), Vec::new()).is_none());
}

#[test]
fn from_rows_resumes_id_sequences() {
    let rows = vec![player_row(10, "a@example.com", "alpha", None)];
    let teams = vec![Team {
        id: 5,
        name: "T".to_string(),
        contact_person_id: None,
        platoon_id: None,
    }];
    let mut repo = Repository::from_rows(rows, teams, Vec::new()).unwrap();

    create_player(
        "b@example.com".to_string(),
        "beta".to_string(),
        "h".to_string(),
        &mut repo,
    )
    .unwrap();
    create_team("U".to_string(), &mut repo).unwrap();

    assert!(find_player_for_id(11, &repo).unwrap().is_some());
    assert!(find_team_for_id(6, &repo).unwrap().is_some());
}

#[test]
fn create_player_exhausted_id_sequence_is_storage_error() {
    let rows = vec![player_row(i64::MAX - 1, "a@example.com", "alpha", None)];
    let mut repo = Repository::from_rows(rows, Vec::new(), Vec::new()).unwrap();

    let result = create_player(
        "b@example.com".to_string(),
        "beta".to_string(),
        "h".to_string(),
        &mut repo,
    );
    assert_eq!(result, Err(DatabaseError::Diesel));
    assert_eq!(get_all_players(&repo).unwrap().len(), 1);
}

#[test]
fn name_filter_is_case_insensitive_substring() {
    let rows = vec![
        player_row(1, "a@example.com", "ShadowFox", None),
        player_row(2, "b@example.com", "quiet", None),
        player_row(3, "c@example.com", "foxtrot", None),
    ];
    let repo = Repository::from_rows(rows, Vec::new(), Vec::new()).unwrap();

    let hits = get_players_for_name_filter("FOX".to_string(), &repo).unwrap();
    let ids: Vec<i64> = hits.iter().map(|p| p.id).collect();
    assert_eq!(ids, vec![1, 3]);
}

#[test]
fn empty_name_filter_returns_every_row() {
    let rows = vec![
        player_row(1, "a@example.com", "alpha", None),
        player_row(2, "b@example.com", "beta", None),
    ];
    let repo = Repository::from_rows(rows, Vec::new(), Vec::new()).unwrap();

    assert_eq!(get_players_for_name_filter(String::new(), &repo).unwrap().len(), 2);
}

#[test]
fn team_and_platoon_name_filters() {
    let teams = vec![
        Team {
            id: 1,
            name: "Night Watch".to_string(),
            contact_person_id: None,
            platoon_id: None,
        },
        Team {
            id: 2,
            name: "Dawn Patrol".to_string(),
            contact_person_id: None,
            platoon_id: None,
        },
    ];
    let platoons = vec![Platoon {
        id: 1,
        team: "A".to_string(),
        name: "First Platoon".to_string(),
        motto: "onward".to_string(),
        leader_id: None,
        deputy_leader_id: None,
    }];
    let repo = Repository::from_rows(Vec::new(), teams, platoons).unwrap();

    let teams = get_teams_for_name_filter("watch".to_string(), &repo).unwrap();
    assert_eq!(teams.len(), 1);
    assert_eq!(teams[0].id, 1);

    let platoons = get_platoons_for_name_filter("first".to_string(), &repo).unwrap();
    assert_eq!(platoons.len(), 1);
    assert!(get_platoons_for_name_filter("second".to_string(), &repo)
        .unwrap()
        .is_empty());
}

#[test]
fn players_for_team_filters_by_reference() {
    let rows = vec![
        player_row(1, "a@example.com", "alpha", Some(1)),
        player_row(2, "b@example.com", "beta", None),
        player_row(3, "c@example.com", "gamma", Some(1)),
        player_row(4, "d@example.com", "delta", Some(2)),
    ];
    let repo = Repository::from_rows(rows, Vec::new(), Vec::new()).unwrap();

    let members = get_players_for_team(1, &repo).unwrap();
    let ids: Vec<i64> = members.iter().map(|p| p.id).collect();
    assert_eq!(ids, vec![1, 3]);
}

#[test]
fn database_error_messages() {
    assert_eq!(DatabaseError::EntityNotFound.message(), "entity not found");
    assert_eq!(
        DatabaseError::CreateUserEmailExists("a@b.c".to_string()).message(),
        "user with email a@b.c already exists"
    );
    assert_eq!(
        DatabaseError::CreateUserTagNameExists("tag".to_string()).message(),
        "user with tag name tag already exists"
    );
    assert_eq!(DatabaseError::Diesel.message(), "diesel error");
}
