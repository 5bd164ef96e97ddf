//! The server-side entry points behind the presentation layer: they take the
//! store explicitly, translate rows into domain values, parse submitted
//! forms, and wrap storage and authentication failures into one error type.

use vstd::prelude::*;

use crate::auth::{
    authenticate, password_digest, spec_password_digest, AuthError, Credentials,
};
use crate::database::models;
use crate::database::{
    create_player, create_team, spec_effective_added, spec_effective_removed,
    spec_find_platoon_by_id, spec_find_player_by_email, spec_find_player_by_id,
    spec_find_team_by_id, spec_has_player, spec_has_player_email, spec_has_tag_name,
    spec_has_team, spec_save_player_rows,
    spec_platoons_matching, spec_players_matching, spec_players_of_team, spec_reconciled_players,
    spec_teams_matching, spec_updated_teams, DatabaseError, Repository,
};
use crate::domain;
use crate::text;

verus! {

/// Everything a request handler can fail with: a storage error, an
/// authentication error, or a missing request context.
#[derive(Debug, Clone, PartialEq, Eq)]
pub enum AppError {
    Database(DatabaseError),
    AuthError(AuthError),
    MissingContext,
}

impl From<DatabaseError> for AppError {
    fn from(value: DatabaseError) -> (r: Self) {
        AppError::Database(value)
    }
}

impl vstd::std_specs::convert::FromSpecImpl<DatabaseError> for AppError {
    open spec fn obeys_from_spec() -> bool {
        true
    }

    open spec fn from_spec(v: DatabaseError) -> Self {
        AppError::Database(v)
    }
}

#[verifier::loop_isolation(false)]
fn players_to_domain_vec(rows: Vec<models::Player>) -> (r: Vec<domain::Player>)
    ensures
        r@ == domain::players_to_domain(rows@),
{
    let ghost f: spec_fn(models::Player) -> domain::Player = |p: models::Player|
        domain::player_from_row(p);
    let n = rows.len();
    let mut out: Vec<domain::Player> = Vec::new();
    let mut i: usize = 0;
    while i < n
        invariant
            i <= n,
            out@ == rows@.subrange(0, i as int).map_values(f),
        decreases n - i,
    {
        out.push(domain::Player::from(rows[i].duplicate()));
        proof {
            assert(rows@.subrange(0, i + 1).map_values(f) =~= rows@.subrange(0, i as int)
                .map_values(f).push(f(rows@[i as int])));
        }
        i += 1;
    }
    proof {
        assert(rows@.subrange(0, n as int) =~= rows@);
    }
    out
}

#[verifier::loop_isolation(false)]
fn teams_to_domain_vec(rows: Vec<models::Team>) -> (r: Vec<domain::Team>)
    ensures
        r@ == domain::teams_to_domain(rows@),
{
    let ghost f: spec_fn(models::Team) -> domain::Team = |t: models::Team|
        domain::team_from_row(t);
    let n = rows.len();
    let mut out: Vec<domain::Team> = Vec::new();
    let mut i: usize = 0;
    while i < n
        invariant
            i <= n,
            out@ == rows@.subrange(0, i as int).map_values(f),
        decreases n - i,
    {
        out.push(domain::Team::from(rows[i].duplicate()));
        proof {
            assert(rows@.subrange(0, i + 1).map_values(f) =~= rows@.subrange(0, i as int)
                .map_values(f).push(f(rows@[i as int])));
        }
        i += 1;
    }
    proof {
        assert(rows@.subrange(0, n as int) =~= rows@);
    }
    out
}

#[verifier::loop_isolation(false)]
fn platoons_to_domain_vec(rows: Vec<models::Platoon>) -> (r: Vec<domain::Platoon>)
    ensures
        r@ == domain::platoons_to_domain(rows@),
{
    let ghost f: spec_fn(models::Platoon) -> domain::Platoon = |p: models::Platoon|
        domain::platoon_from_row(p);
    let n = rows.len();
    let mut out: Vec<domain::Platoon> = Vec::new();
    let mut i: usize = 0;
    while i < n
        invariant
            i <= n,
            out@ == rows@.subrange(0, i as int).map_values(f),
        decreases n - i,
    {
        out.push(domain::Platoon::from(rows[i].duplicate()));
        proof {
            assert(rows@.subrange(0, i + 1).map_values(f) =~= rows@.subrange(0, i as int)
                .map_values(f).push(f(rows@[i as int])));
        }
        i += 1;
    }
    proof {
        assert(rows@.subrange(0, n as int) =~= rows@);
    }
    out
}

/// Every player, as domain values.
pub fn get_all_players(repo: &Repository) -> (r: Result<Vec<domain::Player>, AppError>)
    ensures
        r is Ok,
        r->Ok_0@ == domain::players_to_domain(repo.players()),
{
    match crate::database::get_all_players(repo) {
        Ok(rows) => Ok(players_to_domain_vec(rows)),
        Err(e) => Err(AppError::Database(e)),
    }
}

/// The players whose tag name passes the filter, as domain values.
pub fn get_filtered_players(filter: String, repo: &Repository) -> (r: Result<
    Vec<domain::Player>,
    AppError,
>)
    ensures
        r is Ok,
        r->Ok_0@ == domain::players_to_domain(spec_players_matching(repo.players(), filter@)),
{
    match crate::database::get_players_for_name_filter(filter, repo) {
        Ok(rows) => Ok(players_to_domain_vec(rows)),
        Err(e) => Err(AppError::Database(e)),
    }
}

/// A player by optional id: an absent id is an absent player, not an error.
pub fn find_player_for_id(id: Option<i64>, repo: &Repository) -> (r: Result<
    Option<domain::Player>,
    AppError,
>)
    ensures
        r is Ok,
        r->Ok_0 == match id {
            None => None::<domain::Player>,
            Some(i) => match spec_find_player_by_id(repo.players(), i) {
                None => None::<domain::Player>,
                Some(row) => Some(domain::player_from_row(row)),
            },
        },
{
    match id {
        None => Ok(None),
        Some(i) => match crate::database::find_player_for_id(i, repo) {
            Ok(Some(row)) => Ok(Some(domain::Player::from(row))),
            Ok(None) => Ok(None),
            Err(e) => Err(AppError::Database(e)),
        },
    }
}

/// A player by email: an empty email is an absent player, not an error.
pub fn find_player_for_email(email: String, repo: &Repository) -> (r: Result<
    Option<domain::Player>,
    AppError,
>)
    ensures
        r is Ok,
        r->Ok_0 == (if email@.len() == 0 {
            None::<domain::Player>
        } else {
            match spec_find_player_by_email(repo.players(), email@) {
                None => None::<domain::Player>,
                Some(row) => Some(domain::player_from_row(row)),
            }
        }),
{
    if email.as_str().is_empty() {
        return Ok(None);
    }
    match crate::database::find_player_for_email(email.as_str(), repo) {
        Ok(Some(row)) => Ok(Some(domain::Player::from(row))),
        Ok(None) => Ok(None),
        Err(e) => Err(AppError::Database(e)),
    }
}

/// A team by optional id: an absent id is an absent team, not an error.
pub fn find_team_for_id(id: Option<i64>, repo: &Repository) -> (r: Result<
    Option<domain::Team>,
    AppError,
>)
    ensures
        r is Ok,
        r->Ok_0 == match id {
            None => None::<domain::Team>,
            Some(i) => match spec_find_team_by_id(repo.teams(), i) {
                None => None::<domain::Team>,
                Some(row) => Some(domain::team_from_row(row)),
            },
        },
{
    match id {
        None => Ok(None),
        Some(i) => match crate::database::find_team_for_id(i, repo) {
            Ok(Some(row)) => Ok(Some(domain::Team::from(row))),
            Ok(None) => Ok(None),
            Err(e) => Err(AppError::Database(e)),
        },
    }
}

/// The teams whose name passes the filter, as domain values.
pub fn get_filtered_teams(filter: String, repo: &Repository) -> (r: Result<
    Vec<domain::Team>,
    AppError,
>)
    ensures
        r is Ok,
        r->Ok_0@ == domain::teams_to_domain(spec_teams_matching(repo.teams(), filter@)),
{
    match crate::database::get_teams_for_name_filter(filter, repo) {
        Ok(rows) => Ok(teams_to_domain_vec(rows)),
        Err(e) => Err(AppError::Database(e)),
    }
}

/// The members of a team, as domain values.
pub fn get_players_for_team(team_id: i64, repo: &Repository) -> (r: Result<
    Vec<domain::Player>,
    AppError,
>)
    ensures
        r is Ok,
        r->Ok_0@ == domain::players_to_domain(spec_players_of_team(repo.players(), team_id)),
{
    match crate::database::get_players_for_team(team_id, repo) {
        Ok(rows) => Ok(players_to_domain_vec(rows)),
        Err(e) => Err(AppError::Database(e)),
    }
}

/// The platoons whose name passes the filter, as domain values.
pub fn get_filtered_platoons(filter: String, repo: &Repository) -> (r: Result<
    Vec<domain::Platoon>,
    AppError,
>)
    ensures
        r is Ok,
        r->Ok_0@ == domain::platoons_to_domain(spec_platoons_matching(repo.platoons(), filter@)),
{
    match crate::database::get_platoons_for_name_filter(filter, repo) {
        Ok(rows) => Ok(platoons_to_domain_vec(rows)),
        Err(e) => Err(AppError::Database(e)),
    }
}

/// A platoon by optional id: an absent id is an absent platoon, not an
/// error.
pub fn find_platoon_for_id(id: Option<i64>, repo: &Repository) -> (r: Result<
    Option<domain::Platoon>,
    AppError,
>)
    ensures
        r is Ok,
        r->Ok_0 == match id {
            None => None::<domain::Platoon>,
            Some(i) => match spec_find_platoon_by_id(repo.platoons(), i) {
                None => None::<domain::Platoon>,
                Some(row) => Some(domain::platoon_from_row(row)),
            },
        },
{
    match id {
        None => Ok(None),
        Some(i) => match crate::database::find_platoon_for_id(i, repo) {
            Ok(Some(row)) => Ok(Some(domain::Platoon::from(row))),
            Ok(None) => Ok(None),
            Err(e) => Err(AppError::Database(e)),
        },
    }
}

/// Every team, as domain values.
pub fn get_teams(repo: &Repository) -> (r: Result<Vec<domain::Team>, AppError>)
    ensures
        r is Ok,
        r->Ok_0@ == domain::teams_to_domain(repo.teams()),
{
    match crate::database::get_all_teams(repo) {
        Ok(rows) => Ok(teams_to_domain_vec(rows)),
        Err(e) => Err(AppError::Database(e)),
    }
}

/// A team by id, where a missing row is an entity-not-found error.
pub fn load_team_by_id(id: i64, repo: &Repository) -> (r: Result<domain::Team, AppError>)
    ensures
        r == match spec_find_team_by_id(repo.teams(), id) {
            Some(row) => Ok::<domain::Team, AppError>(domain::team_from_row(row)),
            None => Err::<domain::Team, AppError>(
                AppError::Database(DatabaseError::EntityNotFound),
            ),
        },
{
    match crate::database::find_team_for_id(id, repo) {
        Ok(Some(row)) => Ok(domain::Team::from(row)),
        Ok(None) => Err(AppError::Database(DatabaseError::EntityNotFound)),
        Err(e) => Err(AppError::Database(e)),
    }
}

/// Creates a team with the given name.
pub fn create_new_team(name: String, repo: &mut Repository) -> (r: Result<(), AppError>)
    requires
        old(repo).wf(),
    ensures
        final(repo).wf(),
        match r {
            Ok(()) => {
                &&& old(repo).team_id_bound() < i64::MAX
                &&& final(repo).teams() == old(repo).teams().push(
                    models::Team {
                        id: old(repo).team_id_bound(),
                        name,
                        contact_person_id: None,
                        platoon_id: None,
                    },
                )
                &&& final(repo).team_id_bound() == old(repo).team_id_bound() + 1
                &&& final(repo).players() == old(repo).players()
                &&& final(repo).platoons() == old(repo).platoons()
                &&& final(repo).player_id_bound() == old(repo).player_id_bound()
            },
            Err(e) => {
                &&& *final(repo) == *old(repo)
                &&& e == AppError::Database(DatabaseError::Diesel)
                &&& old(repo).team_id_bound() == i64::MAX
            },
        },
{
    match create_team(name, repo) {
        Ok(()) => Ok(()),
        Err(e) => Err(AppError::Database(e)),
    }
}

/// The player-edit form as it is submitted.
#[derive(Debug, Clone, PartialEq)]
pub struct EditPlayerForm {
    pub id: i64,
    pub email: String,
    pub tag_name: String,
    pub active: bool,
    pub team_id: Option<i64>,
}

/// The player a submitted edit form denotes.
pub open spec fn spec_form_player(form: EditPlayerForm) -> domain::Player {
    domain::Player {
        id: Some(form.id),
        email: form.email,
        tag_name: form.tag_name,
        active: form.active,
        team_id: form.team_id,
    }
}

/// Applies a submitted player-edit form as a full-row update.
pub fn save_player(player_form: EditPlayerForm, repo: &mut Repository) -> (r: Result<
    (),
    AppError,
>)
    requires
        old(repo).wf(),
    ensures
        final(repo).wf(),
        match r {
            Ok(()) => {
                &&& spec_has_player(old(repo).players(), player_form.id)
                &&& final(repo).players() == spec_save_player_rows(
                    old(repo).players(),
                    spec_form_player(player_form),
                )
                &&& final(repo).teams() == old(repo).teams()
                &&& final(repo).platoons() == old(repo).platoons()
                &&& final(repo).player_id_bound() == old(repo).player_id_bound()
                &&& final(repo).team_id_bound() == old(repo).team_id_bound()
            },
            Err(e) => {
                &&& *final(repo) == *old(repo)
                &&& e == AppError::Database(DatabaseError::EntityNotFound)
                &&& !spec_has_player(old(repo).players(), player_form.id)
            },
        },
{
    let player = domain::Player {
        id: Some(player_form.id),
        email: player_form.email,
        tag_name: player_form.tag_name,
        active: player_form.active,
        team_id: player_form.team_id,
    };
    match crate::database::save_player(player, repo) {
        Ok(()) => Ok(()),
        Err(e) => Err(AppError::Database(e)),
    }
}

/// Creates a player from the new-player form; no password is collected
/// there, so the stored digest starts empty and such a player cannot log in
/// until one is set.
pub fn create_new_player(email: String, tag_name: String, repo: &mut Repository) -> (r: Result<
    (),
    AppError,
>)
    requires
        old(repo).wf(),
    ensures
        final(repo).wf(),
        match r {
            Ok(()) => {
                &&& !spec_has_player_email(old(repo).players(), email@)
                &&& !spec_has_tag_name(old(repo).players(), tag_name@)
                &&& old(repo).player_id_bound() < i64::MAX
                &&& final(repo).players().len() == old(repo).players().len() + 1
                &&& final(repo).players() == old(repo).players().push(
                    final(repo).players().last(),
                )
                &&& final(repo).players().last().id == old(repo).player_id_bound()
                &&& final(repo).players().last().email == email
                &&& final(repo).players().last().tag_name == tag_name
                &&& final(repo).players().last().active == true
                &&& final(repo).players().last().team_id is None
                &&& final(repo).players().last().password_hash@ == Seq::<char>::empty()
                &&& final(repo).player_id_bound() == old(repo).player_id_bound() + 1
                &&& final(repo).teams() == old(repo).teams()
                &&& final(repo).platoons() == old(repo).platoons()
                &&& final(repo).team_id_bound() == old(repo).team_id_bound()
            },
            Err(e) => {
                &&& *final(repo) == *old(repo)
                &&& match e {
                    AppError::Database(DatabaseError::CreateUserEmailExists(s)) => s == email
                        && spec_has_player_email(old(repo).players(), email@),
                    AppError::Database(DatabaseError::CreateUserTagNameExists(s)) => s == tag_name
                        && !spec_has_player_email(old(repo).players(), email@)
                        && spec_has_tag_name(old(repo).players(), tag_name@),
                    AppError::Database(DatabaseError::Diesel) => !spec_has_player_email(
                        old(repo).players(),
                        email@,
                    ) && !spec_has_tag_name(old(repo).players(), tag_name@) && old(
                        repo,
                    ).player_id_bound() == i64::MAX,
                    _ => false,
                }
            },
        },
{
    match create_player(email, tag_name, String::new(), repo) {
        Ok(()) => Ok(()),
        Err(e) => Err(AppError::Database(e)),
    }
}

/// The team-edit form as it is submitted: scalar fields and two
/// comma-separated lists of player ids.
#[derive(Debug, Clone, PartialEq)]
pub struct EditTeamForm {
    pub id: i64,
    pub name: String,
    pub contact_person_id: Option<i64>,
    pub platoon_id: Option<i64>,
    pub new_member_ids: String,
    pub removed_member_ids: String,
}

/// The target team a submitted form denotes.
pub open spec fn spec_form_team(form: EditTeamForm) -> domain::Team {
    domain::Team {
        id: Some(form.id),
        name: form.name,
        contact_person_id: form.contact_person_id,
        platoon_id: form.platoon_id,
    }
}

/// Parses the two id lists of a submitted team-edit form and reconciles the
/// team in one atomic step.
pub fn save_team(team_form: EditTeamForm, repo: &mut Repository) -> (r: Result<(), AppError>)
    requires
        old(repo).wf(),
    ensures
        final(repo).wf(),
        match r {
            Ok(()) => {
                let team = spec_form_team(team_form);
                let added = spec_effective_added(
                    team,
                    text::parsed_id_set(vstd::utf8::encode_utf8(team_form.new_member_ids@)),
                    old(repo).players(),
                );
                let removed = spec_effective_removed(
                    team,
                    text::parsed_id_set(vstd::utf8::encode_utf8(team_form.removed_member_ids@)),
                );
                &&& spec_has_team(old(repo).teams(), team_form.id)
                &&& final(repo).teams() == spec_updated_teams(old(repo).teams(), team)
                &&& final(repo).players() == spec_reconciled_players(
                    old(repo).players(),
                    team_form.id,
                    added,
                    removed,
                )
                &&& final(repo).platoons() == old(repo).platoons()
                &&& final(repo).player_id_bound() == old(repo).player_id_bound()
                &&& final(repo).team_id_bound() == old(repo).team_id_bound()
            },
            Err(e) => {
                &&& *final(repo) == *old(repo)
                &&& e == AppError::Database(DatabaseError::EntityNotFound)
                &&& !spec_has_team(old(repo).teams(), team_form.id)
            },
        },
{
    let new_member_ids = text::parse_member_ids(team_form.new_member_ids.as_str());
    let removed_member_ids = text::parse_member_ids(team_form.removed_member_ids.as_str());
    let team = domain::Team {
        id: Some(team_form.id),
        name: team_form.name,
        contact_person_id: team_form.contact_person_id,
        platoon_id: team_form.platoon_id,
    };
    match crate::database::save_team(team, new_member_ids, removed_member_ids, repo) {
        Ok(()) => Ok(()),
        Err(e) => Err(AppError::Database(e)),
    }
}

/// Authenticates a submission: the user behind valid credentials, an
/// authentication-backend error for anything else. The session itself is the
/// caller's to establish.
pub fn do_login(credentials: Credentials, repo: &Repository) -> (r: Result<
    models::Player,
    AppError,
>)
    ensures
        r == match spec_find_player_by_email(repo.players(), credentials.spec_email()) {
            None => Err::<models::Player, AppError>(AppError::AuthError(AuthError::Backend)),
            Some(p) => if p.password_hash@ == spec_password_digest(credentials.spec_password()) {
                Ok::<models::Player, AppError>(p)
            } else {
                Err::<models::Player, AppError>(AppError::AuthError(AuthError::Backend))
            },
        },
{
    match authenticate(credentials, repo) {
        Ok(Some(player)) => Ok(player),
        Ok(None) => Err(AppError::AuthError(AuthError::InvalidLogin)),
        Err(_) => Err(AppError::AuthError(AuthError::Backend)),
    }
}

/// Registers a player: the submitted password is hashed and the player is
/// created with the digest; a uniqueness violation or exhausted id sequence
/// surfaces as the storage error it is.
pub fn do_register(email: String, tag_name: String, password: String, repo: &mut Repository) -> (r:
    Result<bool, AppError>)
    requires
        old(repo).wf(),
    ensures
        final(repo).wf(),
        match r {
            Ok(b) => {
                &&& b == true
                &&& !spec_has_player_email(old(repo).players(), email@)
                &&& !spec_has_tag_name(old(repo).players(), tag_name@)
                &&& old(repo).player_id_bound() < i64::MAX
                &&& final(repo).players().len() == old(repo).players().len() + 1
                &&& final(repo).players() == old(repo).players().push(
                    final(repo).players().last(),
                )
                &&& final(repo).players().last().id == old(repo).player_id_bound()
                &&& final(repo).players().last().email == email
                &&& final(repo).players().last().tag_name == tag_name
                &&& final(repo).players().last().active == true
                &&& final(repo).players().last().team_id is None
                &&& final(repo).players().last().password_hash@ == spec_password_digest(password@)
                &&& final(repo).player_id_bound() == old(repo).player_id_bound() + 1
                &&& final(repo).teams() == old(repo).teams()
                &&& final(repo).platoons() == old(repo).platoons()
                &&& final(repo).team_id_bound() == old(repo).team_id_bound()
            },
            Err(e) => {
                &&& *final(repo) == *old(repo)
                &&& match e {
                    AppError::Database(DatabaseError::CreateUserEmailExists(s)) => s == email
                        && spec_has_player_email(old(repo).players(), email@),
                    AppError::Database(DatabaseError::CreateUserTagNameExists(s)) => s == tag_name
                        && !spec_has_player_email(old(repo).players(), email@)
                        && spec_has_tag_name(old(repo).players(), tag_name@),
                    AppError::Database(DatabaseError::Diesel) => !spec_has_player_email(
                        old(repo).players(),
                        email@,
                    ) && !spec_has_tag_name(old(repo).players(), tag_name@) && old(
                        repo,
                    ).player_id_bound() == i64::MAX,
                    _ => false,
                }
            },
        },
{
    let password_hash = password_digest(password.as_str());
    match create_player(email, tag_name, password_hash, repo) {
        Ok(()) => Ok(true),
        Err(e) => Err(AppError::Database(e)),
    }
}

} // verus!
