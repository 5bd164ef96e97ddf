//! The entity repository: an in-memory relational store of player, team and
//! platoon rows with verified CRUD operations, and the team-membership
//! reconciliation workflow.

pub mod models;

use std::collections::HashSet;

use vstd::prelude::*;
use vstd::string::StringExecFns;

use crate::database::models::{Platoon, Player, Team};
use crate::domain;
use crate::text;

verus! {

broadcast use vstd::std_specs::hash::group_hash_axioms;

/// The error taxonomy of the storage layer: a keyed lookup or update that
/// found no row, a uniqueness violation carrying the offending value, and a
/// generic storage failure.
#[derive(Debug, Clone, PartialEq, Eq)]
pub enum DatabaseError {
    EntityNotFound,
    CreateUserEmailExists(String),
    CreateUserTagNameExists(String),
    Diesel,
}

/// What each error's displayable message reads.
pub open spec fn spec_database_error_message(e: DatabaseError) -> Seq<char> {
    match e {
        DatabaseError::EntityNotFound => "entity not found"@,
        DatabaseError::CreateUserEmailExists(email) => "user with email "@ + email@
            + " already exists"@,
        DatabaseError::CreateUserTagNameExists(tag) => "user with tag name "@ + tag@
            + " already exists"@,
        DatabaseError::Diesel => "diesel error"@,
    }
}

impl DatabaseError {
    /// The displayable message for this error.
    pub fn message(&self) -> (r: String)
        ensures
            r@ == spec_database_error_message(*self),
    {
        match self {
            DatabaseError::EntityNotFound => "entity not found".to_owned(),
            DatabaseError::CreateUserEmailExists(email) => "user with email ".to_owned().concat(
                email.as_str(),
            ).concat(" already exists"),
            DatabaseError::CreateUserTagNameExists(tag) => "user with tag name "
                .to_owned().concat(tag.as_str()).concat(" already exists"),
            DatabaseError::Diesel => "diesel error".to_owned(),
        }
    }
}

/// The first element of `s` satisfying `pred`, if any; the order of the
/// underlying rows decides which row a keyed or filtered lookup returns.
pub open spec fn find_first<T>(s: Seq<T>, pred: spec_fn(T) -> bool) -> Option<T>
    decreases s.len(),
{
    if s.len() == 0 {
        None
    } else if pred(s[0]) {
        Some(s[0])
    } else {
        find_first(s.drop_first(), pred)
    }
}

proof fn lemma_find_first_at<T>(s: Seq<T>, pred: spec_fn(T) -> bool, i: int)
    requires
        0 <= i < s.len(),
        pred(s[i]),
        forall|j: int| 0 <= j < i ==> !pred(#[trigger] s[j]),
    ensures
        find_first(s, pred) == Some(s[i]),
    decreases i,
{
    if i > 0 {
        lemma_find_first_at(s.drop_first(), pred, i - 1);
    }
}

proof fn lemma_find_first_none<T>(s: Seq<T>, pred: spec_fn(T) -> bool)
    requires
        forall|j: int| 0 <= j < s.len() ==> !pred(#[trigger] s[j]),
    ensures
        find_first(s, pred) is None,
    decreases s.len(),
{
    if s.len() > 0 {
        lemma_find_first_none(s.drop_first(), pred);
    }
}

/// The player row carrying this id, if any.
pub open spec fn spec_find_player_by_id(players: Seq<Player>, id: i64) -> Option<Player> {
    find_first(players, |p: Player| p.id == id)
}

/// The first player row carrying this email, if any.
pub open spec fn spec_find_player_by_email(players: Seq<Player>, email: Seq<char>) -> Option<
    Player,
> {
    find_first(players, |p: Player| p.email@ == email)
}

/// The team row carrying this id, if any.
pub open spec fn spec_find_team_by_id(teams: Seq<Team>, id: i64) -> Option<Team> {
    find_first(teams, |t: Team| t.id == id)
}

/// The platoon row carrying this id, if any.
pub open spec fn spec_find_platoon_by_id(platoons: Seq<Platoon>, id: i64) -> Option<Platoon> {
    find_first(platoons, |p: Platoon| p.id == id)
}

/// The player rows belonging to a team, in storage order.
pub open spec fn spec_players_of_team(players: Seq<Player>, tid: i64) -> Seq<Player> {
    players.filter(|p: Player| p.team_id == Some(tid))
}

/// The player rows whose tag name passes a filter, in storage order.
pub open spec fn spec_players_matching(players: Seq<Player>, filter: Seq<char>) -> Seq<Player> {
    players.filter(|p: Player| text::name_matches(p.tag_name@, filter))
}

/// The team rows whose name passes a filter, in storage order.
pub open spec fn spec_teams_matching(teams: Seq<Team>, filter: Seq<char>) -> Seq<Team> {
    teams.filter(|t: Team| text::name_matches(t.name@, filter))
}

/// The platoon rows whose name passes a filter, in storage order.
pub open spec fn spec_platoons_matching(platoons: Seq<Platoon>, filter: Seq<char>) -> Seq<
    Platoon,
> {
    platoons.filter(|p: Platoon| text::name_matches(p.name@, filter))
}

/// The in-memory relational store. It stands where the connection pool stood:
/// every repository operation takes it explicitly.
pub struct Repository {
    players: Vec<Player>,
    teams: Vec<Team>,
    platoons: Vec<Platoon>,
    next_player_id: i64,
    next_team_id: i64,
}

impl Repository {
    /// The player rows, in storage order.
    pub closed spec fn players(self) -> Seq<Player> {
        self.players@
    }

    /// The team rows, in storage order.
    pub closed spec fn teams(self) -> Seq<Team> {
        self.teams@
    }

    /// The platoon rows, in storage order.
    pub closed spec fn platoons(self) -> Seq<Platoon> {
        self.platoons@
    }

    /// The next id the player sequence will hand out.
    pub closed spec fn player_id_bound(self) -> i64 {
        self.next_player_id
    }

    /// The next id the team sequence will hand out.
    pub closed spec fn team_id_bound(self) -> i64 {
        self.next_team_id
    }

    /// Well-formedness: ids are unique per table and stay below the id its
    /// sequence will hand out next.
    pub open spec fn wf(self) -> bool {
        &&& forall|i: int, j: int|
            #![trigger self.players()[i], self.players()[j]]
            0 <= i < j < self.players().len() ==> self.players()[i].id != self.players()[j].id
        &&& forall|i: int|
            0 <= i < self.players().len() ==> (#[trigger] self.players()[i]).id
                < self.player_id_bound()
        &&& forall|i: int, j: int|
            #![trigger self.teams()[i], self.teams()[j]]
            0 <= i < j < self.teams().len() ==> self.teams()[i].id != self.teams()[j].id
        &&& forall|i: int|
            0 <= i < self.teams().len() ==> (#[trigger] self.teams()[i]).id < self.team_id_bound()
        &&& forall|i: int, j: int|
            #![trigger self.platoons()[i], self.platoons()[j]]
            0 <= i < j < self.platoons().len() ==> self.platoons()[i].id != self.platoons()[j].id
    }

    /// An empty store whose id sequences start at 1.
    pub fn new() -> (r: Self)
        ensures
            r.wf(),
            r.players() == Seq::<Player>::empty(),
            r.teams() == Seq::<Team>::empty(),
            r.platoons() == Seq::<Platoon>::empty(),
            r.player_id_bound() == 1,
            r.team_id_bound() == 1,
    {
        Repository {
            players: Vec::new(),
            teams: Vec::new(),
            platoons: Vec::new(),
            next_player_id: 1,
            next_team_id: 1,
        }
    }
}

/// Ids in a player table are pairwise distinct.
pub open spec fn spec_player_ids_unique(players: Seq<Player>) -> bool {
    forall|i: int, j: int|
        #![trigger players[i], players[j]]
        0 <= i < j < players.len() ==> players[i].id != players[j].id
}

/// Ids in a team table are pairwise distinct.
pub open spec fn spec_team_ids_unique(teams: Seq<Team>) -> bool {
    forall|i: int, j: int|
        #![trigger teams[i], teams[j]]
        0 <= i < j < teams.len() ==> teams[i].id != teams[j].id
}

/// Ids in a platoon table are pairwise distinct.
pub open spec fn spec_platoon_ids_unique(platoons: Seq<Platoon>) -> bool {
    forall|i: int, j: int|
        #![trigger platoons[i], platoons[j]]
        0 <= i < j < platoons.len() ==> platoons[i].id != platoons[j].id
}

/// What `from_rows` accepts: unique ids per table, and ids small enough that
/// each id sequence can still hand out another id.
pub open spec fn spec_rows_loadable(
    players: Seq<Player>,
    teams: Seq<Team>,
    platoons: Seq<Platoon>,
) -> bool {
    &&& spec_player_ids_unique(players)
    &&& spec_team_ids_unique(teams)
    &&& spec_platoon_ids_unique(platoons)
    &&& forall|i: int| 0 <= i < players.len() ==> (#[trigger] players[i]).id < i64::MAX
    &&& forall|i: int| 0 <= i < teams.len() ==> (#[trigger] teams[i]).id < i64::MAX
}

#[verifier::loop_isolation(false)]
fn player_ids_unique(players: &Vec<Player>) -> (r: bool)
    ensures
        r == spec_player_ids_unique(players@),
{
    let n = players.len();
    let mut i: usize = 0;
    while i < n
        invariant
            i <= n,
            forall|a: int, b: int|
                #![trigger players@[a], players@[b]]
                0 <= a < b < players@.len() && a < i ==> players@[a].id != players@[b].id,
        decreases n - i,
    {
        let mut j: usize = i + 1;
        while j < n
            invariant
                i < j <= n,
                forall|b: int| i < b < j ==> players@[i as int].id != (#[trigger] players@[b]).id,
            decreases n - j,
        {
            if players[i].id == players[j].id {
                return false;
            }
            j += 1;
        }
        i += 1;
    }
    true
}

#[verifier::loop_isolation(false)]
fn team_ids_unique(teams: &Vec<Team>) -> (r: bool)
    ensures
        r == spec_team_ids_unique(teams@),
{
    let n = teams.len();
    let mut i: usize = 0;
    while i < n
        invariant
            i <= n,
            forall|a: int, b: int|
                #![trigger teams@[a], teams@[b]]
                0 <= a < b < teams@.len() && a < i ==> teams@[a].id != teams@[b].id,
        decreases n - i,
    {
        let mut j: usize = i + 1;
        while j < n
            invariant
                i < j <= n,
                forall|b: int| i < b < j ==> teams@[i as int].id != (#[trigger] teams@[b]).id,
            decreases n - j,
        {
            if teams[i].id == teams[j].id {
                return false;
            }
            j += 1;
        }
        i += 1;
    }
    true
}

#[verifier::loop_isolation(false)]
fn platoon_ids_unique(platoons: &Vec<Platoon>) -> (r: bool)
    ensures
        r == spec_platoon_ids_unique(platoons@),
{
    let n = platoons.len();
    let mut i: usize = 0;
    while i < n
        invariant
            i <= n,
            forall|a: int, b: int|
                #![trigger platoons@[a], platoons@[b]]
                0 <= a < b < platoons@.len() && a < i ==> platoons@[a].id != platoons@[b].id,
        decreases n - i,
    {
        let mut j: usize = i + 1;
        while j < n
            invariant
                i < j <= n,
                forall|b: int| i < b < j ==> platoons@[i as int].id != (#[trigger] platoons@[b]).id,
            decreases n - j,
        {
            if platoons[i].id == platoons[j].id {
                return false;
            }
            j += 1;
        }
        i += 1;
    }
    true
}

impl Repository {
    /// Builds a store from existing rows, as one loaded from an external
    /// database; rows with duplicate ids within a table, or ids so large
    /// that an id sequence could not continue, are refused. The id
    /// sequences resume right after the largest id present.
    #[verifier::loop_isolation(false)]
    pub fn from_rows(players: Vec<Player>, teams: Vec<Team>, platoons: Vec<Platoon>) -> (r: Option<
        Repository,
    >)
        ensures
            match r {
                Some(repo) => {
                    &&& spec_rows_loadable(players@, teams@, platoons@)
                    &&& repo.wf()
                    &&& repo.players() == players@
                    &&& repo.teams() == teams@
                    &&& repo.platoons() == platoons@
                },
                None => !spec_rows_loadable(players@, teams@, platoons@),
            },
    {
        if !player_ids_unique(&players) || !team_ids_unique(&teams) || !platoon_ids_unique(
            &platoons,
        ) {
            return None;
        }
        let mut next_player_id: i64 = 1;
        let n = players.len();
        let mut i: usize = 0;
        while i < n
            invariant
                i <= n,
                next_player_id >= 1,
                forall|j: int| 0 <= j < i ==> (#[trigger] players@[j]).id < next_player_id,
            decreases n - i,
        {
            if players[i].id == i64::MAX {
                return None;
            }
            if players[i].id >= next_player_id {
                next_player_id = players[i].id + 1;
            }
            i += 1;
        }
        let mut next_team_id: i64 = 1;
        let m = teams.len();
        let mut k: usize = 0;
        while k < m
            invariant
                k <= m,
                next_team_id >= 1,
                forall|j: int| 0 <= j < k ==> (#[trigger] teams@[j]).id < next_team_id,
            decreases m - k,
        {
            if teams[k].id == i64::MAX {
                return None;
            }
            if teams[k].id >= next_team_id {
                next_team_id = teams[k].id + 1;
            }
            k += 1;
        }
        Some(
            Repository {
                players,
                teams,
                platoons,
                next_player_id,
                next_team_id,
            },
        )
    }
}

/// Looks a player up by id.
///
/// Relies on nothing outside the store; the result is exactly the first row
/// carrying the id, and with a well-formed store there is at most one.
#[verifier::loop_isolation(false)]
pub fn find_player_for_id(search_id: i64, repo: &Repository) -> (r: Result<
    Option<Player>,
    DatabaseError,
>)
    ensures
        r == Ok::<Option<Player>, DatabaseError>(
            spec_find_player_by_id(repo.players(), search_id),
        ),
{
    let ghost pred: spec_fn(Player) -> bool = |p: Player| p.id == search_id;
    let n = repo.players.len();
    let mut i: usize = 0;
    while i < n
        invariant
            i <= n,
            n == repo.players().len(),
            forall|j: int| 0 <= j < i ==> !pred(#[trigger] repo.players()[j]),
        decreases n - i,
    {
        if repo.players[i].id == search_id {
            proof {
                lemma_find_first_at(repo.players(), pred, i as int);
            }
            return Ok(Some(repo.players[i].duplicate()));
        }
        i += 1;
    }
    proof {
        lemma_find_first_none(repo.players(), pred);
    }
    Ok(None)
}

/// Looks a player up by email; with several rows sharing the email (only
/// possible after updates, creation refuses duplicates) the first one wins.
#[verifier::loop_isolation(false)]
pub fn find_player_for_email(search_email: &str, repo: &Repository) -> (r: Result<
    Option<Player>,
    DatabaseError,
>)
    ensures
        r == Ok::<Option<Player>, DatabaseError>(
            spec_find_player_by_email(repo.players(), search_email@),
        ),
{
    let ghost pred: spec_fn(Player) -> bool = |p: Player| p.email@ == search_email@;
    let n = repo.players.len();
    let mut i: usize = 0;
    while i < n
        invariant
            i <= n,
            forall|j: int| 0 <= j < i ==> !pred(#[trigger] repo.players()[j]),
        decreases n - i,
    {
        if text::bytes_equal(repo.players[i].email.as_str().as_bytes(), search_email.as_bytes()) {
            proof {
                text::lemma_encode_utf8_injective(repo.players()[i as int].email@, search_email@);
                lemma_find_first_at(repo.players(), pred, i as int);
            }
            return Ok(Some(repo.players[i].duplicate()));
        }
        i += 1;
    }
    proof {
        lemma_find_first_none(repo.players(), pred);
    }
    Ok(None)
}

/// Looks a team up by id.
#[verifier::loop_isolation(false)]
pub fn find_team_for_id(search_id: i64, repo: &Repository) -> (r: Result<
    Option<Team>,
    DatabaseError,
>)
    ensures
        r == Ok::<Option<Team>, DatabaseError>(spec_find_team_by_id(repo.teams(), search_id)),
{
    let ghost pred: spec_fn(Team) -> bool = |t: Team| t.id == search_id;
    let n = repo.teams.len();
    let mut i: usize = 0;
    while i < n
        invariant
            i <= n,
            forall|j: int| 0 <= j < i ==> !pred(#[trigger] repo.teams()[j]),
        decreases n - i,
    {
        if repo.teams[i].id == search_id {
            proof {
                lemma_find_first_at(repo.teams(), pred, i as int);
            }
            return Ok(Some(repo.teams[i].duplicate()));
        }
        i += 1;
    }
    proof {
        lemma_find_first_none(repo.teams(), pred);
    }
    Ok(None)
}

/// Looks a platoon up by id.
#[verifier::loop_isolation(false)]
pub fn find_platoon_for_id(search_id: i64, repo: &Repository) -> (r: Result<
    Option<Platoon>,
    DatabaseError,
>)
    ensures
        r == Ok::<Option<Platoon>, DatabaseError>(
            spec_find_platoon_by_id(repo.platoons(), search_id),
        ),
{
    let ghost pred: spec_fn(Platoon) -> bool = |p: Platoon| p.id == search_id;
    let n = repo.platoons.len();
    let mut i: usize = 0;
    while i < n
        invariant
            i <= n,
            forall|j: int| 0 <= j < i ==> !pred(#[trigger] repo.platoons()[j]),
        decreases n - i,
    {
        if repo.platoons[i].id == search_id {
            proof {
                lemma_find_first_at(repo.platoons(), pred, i as int);
            }
            return Ok(Some(repo.platoons[i].duplicate()));
        }
        i += 1;
    }
    proof {
        lemma_find_first_none(repo.platoons(), pred);
    }
    Ok(None)
}

/// Lists every player row.
#[verifier::loop_isolation(false)]
pub fn get_all_players(repo: &Repository) -> (r: Result<Vec<Player>, DatabaseError>)
    ensures
        r is Ok,
        r->Ok_0@ == repo.players(),
{
    let n = repo.players.len();
    let mut out: Vec<Player> = Vec::new();
    let mut i: usize = 0;
    while i < n
        invariant
            i <= n,
            out@ == repo.players().subrange(0, i as int),
        decreases n - i,
    {
        out.push(repo.players[i].duplicate());
        proof {
            assert(repo.players().subrange(0, i + 1) =~= repo.players().subrange(0, i as int).push(
                repo.players()[i as int],
            ));
        }
        i += 1;
    }
    proof {
        assert(repo.players().subrange(0, n as int) =~= repo.players());
    }
    Ok(out)
}

/// Lists every team row.
#[verifier::loop_isolation(false)]
pub fn get_all_teams(repo: &Repository) -> (r: Result<Vec<Team>, DatabaseError>)
    ensures
        r is Ok,
        r->Ok_0@ == repo.teams(),
{
    let n = repo.teams.len();
    let mut out: Vec<Team> = Vec::new();
    let mut i: usize = 0;
    while i < n
        invariant
            i <= n,
            out@ == repo.teams().subrange(0, i as int),
        decreases n - i,
    {
        out.push(repo.teams[i].duplicate());
        proof {
            assert(repo.teams().subrange(0, i + 1) =~= repo.teams().subrange(0, i as int).push(
                repo.teams()[i as int],
            ));
        }
        i += 1;
    }
    proof {
        assert(repo.teams().subrange(0, n as int) =~= repo.teams());
    }
    Ok(out)
}

/// The rows of the players table that belong to the given team, in storage
/// order.
#[verifier::loop_isolation(false)]
pub fn get_players_for_team(filter_team_id: i64, repo: &Repository) -> (r: Result<
    Vec<Player>,
    DatabaseError,
>)
    ensures
        r is Ok,
        r->Ok_0@ == spec_players_of_team(repo.players(), filter_team_id),
{
    let ghost pred: spec_fn(Player) -> bool = |p: Player| p.team_id == Some(filter_team_id);
    let n = repo.players.len();
    let mut out: Vec<Player> = Vec::new();
    let mut i: usize = 0;
    while i < n
        invariant
            i <= n,
            out@ == repo.players().subrange(0, i as int).filter(pred),
        decreases n - i,
    {
        let keep = match repo.players[i].team_id {
            Some(t) => t == filter_team_id,
            None => false,
        };
        proof {
            assert(keep == pred(repo.players()[i as int]));
            assert(repo.players().subrange(0, i + 1).drop_last() =~= repo.players().subrange(
                0,
                i as int,
            ));
            reveal(Seq::filter);
        }
        if keep {
            out.push(repo.players[i].duplicate());
        }
        i += 1;
    }
    proof {
        assert(repo.players().subrange(0, n as int) =~= repo.players());
    }
    Ok(out)
}

/// The rows of the players table whose tag name passes the filter, in
/// storage order; an empty filter passes every row.
#[verifier::loop_isolation(false)]
pub fn get_players_for_name_filter(filter_name: String, repo: &Repository) -> (r: Result<
    Vec<Player>,
    DatabaseError,
>)
    ensures
        r is Ok,
        r->Ok_0@ == spec_players_matching(repo.players(), filter_name@),
{
    let ghost pred: spec_fn(Player) -> bool = |p: Player| text::name_matches(
        p.tag_name@,
        filter_name@,
    );
    let n = repo.players.len();
    let mut out: Vec<Player> = Vec::new();
    let mut i: usize = 0;
    while i < n
        invariant
            i <= n,
            out@ == repo.players().subrange(0, i as int).filter(pred),
        decreases n - i,
    {
        let keep = text::str_matches_filter(repo.players[i].tag_name.as_str(), filter_name.as_str());
        proof {
            assert(keep == pred(repo.players()[i as int]));
            assert(repo.players().subrange(0, i + 1).drop_last() =~= repo.players().subrange(
                0,
                i as int,
            ));
            reveal(Seq::filter);
        }
        if keep {
            out.push(repo.players[i].duplicate());
        }
        i += 1;
    }
    proof {
        assert(repo.players().subrange(0, n as int) =~= repo.players());
    }
    Ok(out)
}

/// The rows of the teams table whose name passes the filter, in storage
/// order; an empty filter passes every row.
#[verifier::loop_isolation(false)]
pub fn get_teams_for_name_filter(filter_name: String, repo: &Repository) -> (r: Result<
    Vec<Team>,
    DatabaseError,
>)
    ensures
        r is Ok,
        r->Ok_0@ == spec_teams_matching(repo.teams(), filter_name@),
{
    let ghost pred: spec_fn(Team) -> bool = |t: Team| text::name_matches(t.name@, filter_name@);
    let n = repo.teams.len();
    let mut out: Vec<Team> = Vec::new();
    let mut i: usize = 0;
    while i < n
        invariant
            i <= n,
            out@ == repo.teams().subrange(0, i as int).filter(pred),
        decreases n - i,
    {
        let keep = text::str_matches_filter(repo.teams[i].name.as_str(), filter_name.as_str());
        proof {
            assert(keep == pred(repo.teams()[i as int]));
            assert(repo.teams().subrange(0, i + 1).drop_last() =~= repo.teams().subrange(
                0,
                i as int,
            ));
            reveal(Seq::filter);
        }
        if keep {
            out.push(repo.teams[i].duplicate());
        }
        i += 1;
    }
    proof {
        assert(repo.teams().subrange(0, n as int) =~= repo.teams());
    }
    Ok(out)
}

/// The rows of the platoons table whose name passes the filter, in storage
/// order; an empty filter passes every row.
#[verifier::loop_isolation(false)]
pub fn get_platoons_for_name_filter(filter_name: String, repo: &Repository) -> (r: Result<
    Vec<Platoon>,
    DatabaseError,
>)
    ensures
        r is Ok,
        r->Ok_0@ == spec_platoons_matching(repo.platoons(), filter_name@),
{
    let ghost pred: spec_fn(Platoon) -> bool = |p: Platoon| text::name_matches(
        p.name@,
        filter_name@,
    );
    let n = repo.platoons.len();
    let mut out: Vec<Platoon> = Vec::new();
    let mut i: usize = 0;
    while i < n
        invariant
            i <= n,
            out@ == repo.platoons().subrange(0, i as int).filter(pred),
        decreases n - i,
    {
        let keep = text::str_matches_filter(repo.platoons[i].name.as_str(), filter_name.as_str());
        proof {
            assert(keep == pred(repo.platoons()[i as int]));
            assert(repo.platoons().subrange(0, i + 1).drop_last() =~= repo.platoons().subrange(
                0,
                i as int,
            ));
            reveal(Seq::filter);
        }
        if keep {
            out.push(repo.platoons[i].duplicate());
        }
        i += 1;
    }
    proof {
        assert(repo.platoons().subrange(0, n as int) =~= repo.platoons());
    }
    Ok(out)
}

/// Some player row carries this id.
pub open spec fn spec_has_player(players: Seq<Player>, pid: i64) -> bool {
    exists|i: int| 0 <= i < players.len() && (#[trigger] players[i]).id == pid
}

/// Some player row carries this email.
pub open spec fn spec_has_player_email(players: Seq<Player>, email: Seq<char>) -> bool {
    exists|i: int| 0 <= i < players.len() && (#[trigger] players[i]).email@ == email
}

/// Some player row carries this tag name.
pub open spec fn spec_has_tag_name(players: Seq<Player>, tag_name: Seq<char>) -> bool {
    exists|i: int| 0 <= i < players.len() && (#[trigger] players[i]).tag_name@ == tag_name
}

/// Some team row carries this id.
pub open spec fn spec_has_team(teams: Seq<Team>, tid: i64) -> bool {
    exists|i: int| 0 <= i < teams.len() && (#[trigger] teams[i]).id == tid
}

#[verifier::loop_isolation(false)]
fn player_email_exists(email: &str, repo: &Repository) -> (r: bool)
    ensures
        r == spec_has_player_email(repo.players(), email@),
{
    let n = repo.players.len();
    let mut i: usize = 0;
    while i < n
        invariant
            i <= n,
            forall|j: int| 0 <= j < i ==> (#[trigger] repo.players()[j]).email@ != email@,
        decreases n - i,
    {
        if text::bytes_equal(repo.players[i].email.as_str().as_bytes(), email.as_bytes()) {
            proof {
                text::lemma_encode_utf8_injective(repo.players()[i as int].email@, email@);
            }
            return true;
        }
        i += 1;
    }
    false
}

#[verifier::loop_isolation(false)]
fn player_tag_name_exists(tag_name: &str, repo: &Repository) -> (r: bool)
    ensures
        r == spec_has_tag_name(repo.players(), tag_name@),
{
    let n = repo.players.len();
    let mut i: usize = 0;
    while i < n
        invariant
            i <= n,
            forall|j: int| 0 <= j < i ==> (#[trigger] repo.players()[j]).tag_name@ != tag_name@,
        decreases n - i,
    {
        if text::bytes_equal(repo.players[i].tag_name.as_str().as_bytes(), tag_name.as_bytes()) {
            proof {
                text::lemma_encode_utf8_injective(repo.players()[i as int].tag_name@, tag_name@);
            }
            return true;
        }
        i += 1;
    }
    false
}

/// Creates a player after checking, in order, that no row already carries
/// the email and that none carries the tag name; the new row takes the next
/// id of the player sequence, starts active, and belongs to no team.
#[verifier::loop_isolation(false)]
pub fn create_player(
    new_player_email: String,
    new_player_tag_name: String,
    new_player_password_hash: String,
    repo: &mut Repository,
) -> (r: Result<(), DatabaseError>)
    requires
        old(repo).wf(),
    ensures
        final(repo).wf(),
        match r {
            Ok(()) => {
                &&& !spec_has_player_email(old(repo).players(), new_player_email@)
                &&& !spec_has_tag_name(old(repo).players(), new_player_tag_name@)
                &&& old(repo).player_id_bound() < i64::MAX
                &&& final(repo).players() == old(repo).players().push(
                    Player {
                        id: old(repo).player_id_bound(),
                        email: new_player_email,
                        tag_name: new_player_tag_name,
                        active: true,
                        team_id: None,
                        password_hash: new_player_password_hash,
                    },
                )
                &&& final(repo).player_id_bound() == old(repo).player_id_bound() + 1
                &&& final(repo).teams() == old(repo).teams()
                &&& final(repo).platoons() == old(repo).platoons()
                &&& final(repo).team_id_bound() == old(repo).team_id_bound()
            },
            Err(e) => {
                &&& *final(repo) == *old(repo)
                &&& match e {
                    DatabaseError::CreateUserEmailExists(s) => s == new_player_email
                        && spec_has_player_email(old(repo).players(), new_player_email@),
                    DatabaseError::CreateUserTagNameExists(s) => s == new_player_tag_name
                        && !spec_has_player_email(old(repo).players(), new_player_email@)
                        && spec_has_tag_name(old(repo).players(), new_player_tag_name@),
                    DatabaseError::Diesel => !spec_has_player_email(
                        old(repo).players(),
                        new_player_email@,
                    ) && !spec_has_tag_name(old(repo).players(), new_player_tag_name@) && old(
                        repo,
                    ).player_id_bound() == i64::MAX,
                    DatabaseError::EntityNotFound => false,
                }
            },
        },
{
    if player_email_exists(new_player_email.as_str(), repo) {
        return Err(DatabaseError::CreateUserEmailExists(new_player_email));
    }
    if player_tag_name_exists(new_player_tag_name.as_str(), repo) {
        return Err(DatabaseError::CreateUserTagNameExists(new_player_tag_name));
    }
    if repo.next_player_id == i64::MAX {
        return Err(DatabaseError::Diesel);
    }
    let new_player = Player {
        id: repo.next_player_id,
        email: new_player_email,
        tag_name: new_player_tag_name,
        active: true,
        team_id: None,
        password_hash: new_player_password_hash,
    };
    repo.players.push(new_player);
    repo.next_player_id = repo.next_player_id + 1;
    Ok(())
}

/// Creates a team with the given name, no contact person and no platoon; the
/// new row takes the next id of the team sequence.
#[verifier::loop_isolation(false)]
pub fn create_team(create_name: String, repo: &mut Repository) -> (r: Result<(), DatabaseError>)
    requires
        old(repo).wf(),
    ensures
        final(repo).wf(),
        match r {
            Ok(()) => {
                &&& old(repo).team_id_bound() < i64::MAX
                &&& final(repo).teams() == old(repo).teams().push(
                    Team {
                        id: old(repo).team_id_bound(),
                        name: create_name,
                        contact_person_id: None,
                        platoon_id: None,
                    },
                )
                &&& final(repo).team_id_bound() == old(repo).team_id_bound() + 1
                &&& final(repo).players() == old(repo).players()
                &&& final(repo).platoons() == old(repo).platoons()
                &&& final(repo).player_id_bound() == old(repo).player_id_bound()
            },
            Err(e) => {
                &&& *final(repo) == *old(repo)
                &&& e == DatabaseError::Diesel
                &&& old(repo).team_id_bound() == i64::MAX
            },
        },
{
    if repo.next_team_id == i64::MAX {
        return Err(DatabaseError::Diesel);
    }
    let new_team = Team {
        id: repo.next_team_id,
        name: create_name,
        contact_person_id: None,
        platoon_id: None,
    };
    repo.teams.push(new_team);
    repo.next_team_id = repo.next_team_id + 1;
    Ok(())
}

/// A player row after a full-row update: every scalar field is replaced, the
/// stored password digest is kept.
pub open spec fn spec_saved_player_row(p: Player, player: domain::Player) -> Player {
    Player {
        id: p.id,
        email: player.email,
        tag_name: player.tag_name,
        active: player.active,
        team_id: player.team_id,
        password_hash: p.password_hash,
    }
}

/// The players table after a full-row update keyed by `player.id`.
pub open spec fn spec_save_player_rows(players: Seq<Player>, player: domain::Player) -> Seq<
    Player,
> {
    players.map_values(
        |p: Player|
            if p.id == player.id->Some_0 {
                spec_saved_player_row(p, player)
            } else {
                p
            },
    )
}

/// Updates the row carrying `player.id` to the given scalar fields, leaving
/// its password digest as it was; a missing row is an error and the store is
/// untouched.
#[verifier::loop_isolation(false)]
pub fn save_player(player: domain::Player, repo: &mut Repository) -> (r: Result<
    (),
    DatabaseError,
>)
    requires
        old(repo).wf(),
        player.id is Some,
    ensures
        final(repo).wf(),
        match r {
            Ok(()) => {
                &&& spec_has_player(old(repo).players(), player.id->Some_0)
                &&& final(repo).players() == spec_save_player_rows(old(repo).players(), player)
                &&& final(repo).teams() == old(repo).teams()
                &&& final(repo).platoons() == old(repo).platoons()
                &&& final(repo).player_id_bound() == old(repo).player_id_bound()
                &&& final(repo).team_id_bound() == old(repo).team_id_bound()
            },
            Err(e) => {
                &&& *final(repo) == *old(repo)
                &&& e == DatabaseError::EntityNotFound
                &&& !spec_has_player(old(repo).players(), player.id->Some_0)
            },
        },
{
    let pid = player.id.unwrap();
    let ghost f: spec_fn(Player) -> Player = |p: Player|
        if p.id == player.id->Some_0 {
            spec_saved_player_row(p, player)
        } else {
            p
        };
    let n = repo.players.len();
    let mut out: Vec<Player> = Vec::new();
    let mut found = false;
    let mut i: usize = 0;
    while i < n
        invariant
            i <= n,
            out@ == repo.players().subrange(0, i as int).map_values(f),
            found == exists|j: int|
                0 <= j < i && (#[trigger] repo.players()[j]).id == player.id->Some_0,
        decreases n - i,
    {
        let p = &repo.players[i];
        if p.id == pid {
            out.push(
                Player {
                    id: p.id,
                    email: player.email.clone(),
                    tag_name: player.tag_name.clone(),
                    active: player.active,
                    team_id: player.team_id,
                    password_hash: p.password_hash.clone(),
                },
            );
            found = true;
        } else {
            out.push(p.duplicate());
        }
        proof {
            assert(repo.players().subrange(0, i + 1).map_values(f) =~= repo.players().subrange(
                0,
                i as int,
            ).map_values(f).push(f(repo.players()[i as int])));
        }
        i += 1;
    }
    if !found {
        return Err(DatabaseError::EntityNotFound);
    }
    proof {
        assert(repo.players().subrange(0, n as int) =~= repo.players());
    }
    repo.players = out;
    Ok(())
}

/// Membership as the reconciler checks it: the store has a row for player
/// `pid` whose team reference is `tid`.
pub open spec fn spec_is_member(players: Seq<Player>, pid: i64, tid: i64) -> bool {
    exists|i: int|
        0 <= i < players.len() && (#[trigger] players[i]).id == pid && players[i].team_id == Some(
            tid,
        )
}

/// The add set after the contact-person rule: a designated contact person
/// who is not yet a member joins the additions.
pub open spec fn spec_effective_added(
    team: domain::Team,
    added: Set<i64>,
    players: Seq<Player>,
) -> Set<i64> {
    match team.contact_person_id {
        Some(c) => if !spec_is_member(players, c, team.id->Some_0) {
            added.insert(c)
        } else {
            added
        },
        None => added,
    }
}

/// The remove set after the contact-person rule: a designated contact person
/// is never removed, membership takes precedence over the removal request.
pub open spec fn spec_effective_removed(team: domain::Team, removed: Set<i64>) -> Set<i64> {
    match team.contact_person_id {
        Some(c) => removed.remove(c),
        None => removed,
    }
}

/// One player row after the bulk updates: a removal clears the team
/// reference, an addition sets it to the target team, and a row in neither
/// set keeps it; removal wins for a row in both. No other field moves.
pub open spec fn spec_reconciled_player(p: Player, tid: i64, added: Set<i64>, removed: Set<
    i64,
>) -> Player {
    Player {
        id: p.id,
        email: p.email,
        tag_name: p.tag_name,
        active: p.active,
        team_id: if removed.contains(p.id) {
            None
        } else if added.contains(p.id) {
            Some(tid)
        } else {
            p.team_id
        },
        password_hash: p.password_hash,
    }
}

/// The players table after the bulk updates of a reconciliation.
pub open spec fn spec_reconciled_players(
    players: Seq<Player>,
    tid: i64,
    added: Set<i64>,
    removed: Set<i64>,
) -> Seq<Player> {
    players.map_values(|p: Player| spec_reconciled_player(p, tid, added, removed))
}

/// A team row after the scalar update of a reconciliation.
pub open spec fn spec_updated_team_row(t: Team, team: domain::Team) -> Team {
    Team {
        id: t.id,
        name: team.name,
        contact_person_id: team.contact_person_id,
        platoon_id: team.platoon_id,
    }
}

/// The teams table after the scalar update of a reconciliation: only the row
/// keyed by the target's id changes.
pub open spec fn spec_updated_teams(teams: Seq<Team>, team: domain::Team) -> Seq<Team> {
    teams.map_values(
        |t: Team|
            if t.id == team.id->Some_0 {
                spec_updated_team_row(t, team)
            } else {
                t
            },
    )
}

#[verifier::loop_isolation(false)]
fn contact_is_member(c: i64, tid: i64, repo: &Repository) -> (r: bool)
    ensures
        r == spec_is_member(repo.players(), c, tid),
{
    let n = repo.players.len();
    let mut i: usize = 0;
    while i < n
        invariant
            i <= n,
            forall|j: int|
                0 <= j < i ==> !((#[trigger] repo.players()[j]).id == c && repo.players()[j].team_id
                    == Some(tid)),
        decreases n - i,
    {
        let is_hit = match repo.players[i].team_id {
            Some(t) => repo.players[i].id == c && t == tid,
            None => false,
        };
        if is_hit {
            return true;
        }
        i += 1;
    }
    false
}

/// Reconciles a team's row and its membership in one atomic step.
///
/// The team row's scalar fields are updated unconditionally, the
/// contact-person rule adjusts the two requested sets, then every affected
/// player row's team reference is set or cleared. Either every change
/// commits, or — when no team row carries the target id — the store is left
/// exactly as it was.
#[verifier::loop_isolation(false)]
pub fn save_team(
    team: domain::Team,
    new_member_ids: HashSet<i64>,
    removed_member_ids: HashSet<i64>,
    repo: &mut Repository,
) -> (r: Result<(), DatabaseError>)
    requires
        old(repo).wf(),
        team.id is Some,
    ensures
        final(repo).wf(),
        match r {
            Ok(()) => {
                let tid = team.id->Some_0;
                let added = spec_effective_added(team, new_member_ids@, old(repo).players());
                let removed = spec_effective_removed(team, removed_member_ids@);
                &&& spec_has_team(old(repo).teams(), tid)
                &&& final(repo).teams() == spec_updated_teams(old(repo).teams(), team)
                &&& final(repo).players() == spec_reconciled_players(
                    old(repo).players(),
                    tid,
                    added,
                    removed,
                )
                &&& final(repo).platoons() == old(repo).platoons()
                &&& final(repo).player_id_bound() == old(repo).player_id_bound()
                &&& final(repo).team_id_bound() == old(repo).team_id_bound()
            },
            Err(e) => {
                &&& *final(repo) == *old(repo)
                &&& e == DatabaseError::EntityNotFound
                &&& !spec_has_team(old(repo).teams(), team.id->Some_0)
            },
        },
{
    let tid = team.id.unwrap();
    let ghost g: spec_fn(Team) -> Team = |t: Team|
        if t.id == team.id->Some_0 {
            spec_updated_team_row(t, team)
        } else {
            t
        };

    let tn = repo.teams.len();
    let mut new_teams: Vec<Team> = Vec::new();
    let mut found = false;
    let mut i: usize = 0;
    while i < tn
        invariant
            i <= tn,
            new_teams@ == repo.teams().subrange(0, i as int).map_values(g),
            found == exists|j: int| 0 <= j < i && (#[trigger] repo.teams()[j]).id == tid,
        decreases tn - i,
    {
        let t = &repo.teams[i];
        if t.id == tid {
            new_teams.push(
                Team {
                    id: t.id,
                    name: team.name.clone(),
                    contact_person_id: team.contact_person_id,
                    platoon_id: team.platoon_id,
                },
            );
            found = true;
        } else {
            new_teams.push(t.duplicate());
        }
        proof {
            assert(repo.teams().subrange(0, i + 1).map_values(g) =~= repo.teams().subrange(
                0,
                i as int,
            ).map_values(g).push(g(repo.teams()[i as int])));
        }
        i += 1;
    }
    if !found {
        return Err(DatabaseError::EntityNotFound);
    }
    proof {
        assert(repo.teams().subrange(0, tn as int) =~= repo.teams());
    }

    let mut added = new_member_ids;
    let mut removed = removed_member_ids;
    match team.contact_person_id {
        Some(c) => {
            let member = contact_is_member(c, tid, repo);
            if !member && !added.contains(&c) {
                added.insert(c);
            }
            if removed.contains(&c) {
                removed.remove(&c);
            }
            proof {
                assert(added@ =~= spec_effective_added(team, new_member_ids@, repo.players()));
                assert(removed@ =~= spec_effective_removed(team, removed_member_ids@));
            }
        },
        None => {},
    }

    let ghost f: spec_fn(Player) -> Player = |p: Player| spec_reconciled_player(
        p,
        tid,
        added@,
        removed@,
    );
    let pn = repo.players.len();
    let mut new_players: Vec<Player> = Vec::new();
    let mut k: usize = 0;
    while k < pn
        invariant
            k <= pn,
            new_players@ == repo.players().subrange(0, k as int).map_values(f),
        decreases pn - k,
    {
        let p = &repo.players[k];
        let new_team_id = if removed.contains(&p.id) {
            None
        } else if added.contains(&p.id) {
            Some(tid)
        } else {
            p.team_id
        };
        new_players.push(
            Player {
                id: p.id,
                email: p.email.clone(),
                tag_name: p.tag_name.clone(),
                active: p.active,
                team_id: new_team_id,
                password_hash: p.password_hash.clone(),
            },
        );
        proof {
            assert(repo.players().subrange(0, k + 1).map_values(f) =~= repo.players().subrange(
                0,
                k as int,
            ).map_values(f).push(f(repo.players()[k as int])));
        }
        k += 1;
    }
    proof {
        assert(repo.players().subrange(0, pn as int) =~= repo.players());
    }

    repo.teams = new_teams;
    repo.players = new_players;
    Ok(())
}

/// A designated contact person who is in neither requested set and is not
/// currently a member lands in the effective add set, and every row carrying
/// their id ends with its team reference set to the target team.
pub proof fn lemma_contact_person_implicitly_added(
    players: Seq<Player>,
    team: domain::Team,
    added: Set<i64>,
    removed: Set<i64>,
    c: i64,
)
    requires
        team.id is Some,
        team.contact_person_id == Some(c),
        !added.contains(c),
        !removed.contains(c),
        !spec_is_member(players, c, team.id->Some_0),
    ensures
        spec_effective_added(team, added, players).contains(c),
        forall|i: int|
            0 <= i < players.len() && (#[trigger] players[i]).id == c ==> spec_reconciled_players(
                players,
                team.id->Some_0,
                spec_effective_added(team, added, players),
                spec_effective_removed(team, removed),
            )[i].team_id == Some(team.id->Some_0),
{
}

/// A contact person named in the explicit remove set is spared: the
/// effective remove set does not carry them, and every row carrying their id
/// stays a member of the target team — the implicit addition takes
/// precedence over the removal request.
pub proof fn lemma_contact_person_removal_overridden(
    players: Seq<Player>,
    team: domain::Team,
    added: Set<i64>,
    removed: Set<i64>,
    c: i64,
)
    requires
        team.id is Some,
        team.contact_person_id == Some(c),
        removed.contains(c),
        spec_player_ids_unique(players),
    ensures
        !spec_effective_removed(team, removed).contains(c),
        forall|i: int|
            0 <= i < players.len() && (#[trigger] players[i]).id == c ==> spec_reconciled_players(
                players,
                team.id->Some_0,
                spec_effective_added(team, added, players),
                spec_effective_removed(team, removed),
            )[i].team_id == Some(team.id->Some_0),
{
    let tid = team.id->Some_0;
    let eff_added = spec_effective_added(team, added, players);
    let eff_removed = spec_effective_removed(team, removed);
    assert forall|i: int| 0 <= i < players.len() && (#[trigger] players[i]).id == c implies
        spec_reconciled_players(players, tid, eff_added, eff_removed)[i].team_id == Some(
        tid,
    ) by {
        if spec_is_member(players, c, tid) {
            let j = choose|j: int|
                0 <= j < players.len() && (#[trigger] players[j]).id == c && players[j].team_id
                    == Some(tid);
            assert(j == i);
        }
    }
}

/// With empty add and remove sets, and no implicit contact addition to make
/// (no contact person designated, or the contact person already a member,
/// or no row carrying their id), the bulk updates leave every player row
/// exactly as it was; only the team row's scalar fields move.
pub proof fn lemma_empty_sets_leave_players_unchanged(players: Seq<Player>, team: domain::Team)
    requires
        team.id is Some,
        match team.contact_person_id {
            None => true,
            Some(c) => spec_is_member(players, c, team.id->Some_0) || !spec_has_player(players, c),
        },
    ensures
        spec_reconciled_players(
            players,
            team.id->Some_0,
            spec_effective_added(team, Set::empty(), players),
            spec_effective_removed(team, Set::empty()),
        ) == players,
{
    let tid = team.id->Some_0;
    let eff_added = spec_effective_added(team, Set::empty(), players);
    let eff_removed = spec_effective_removed(team, Set::empty());
    assert forall|x: i64| !(#[trigger] eff_removed.contains(x)) by {}
    let result = spec_reconciled_players(players, tid, eff_added, eff_removed);
    assert forall|i: int| 0 <= i < players.len() implies result[i] == players[i] by {
        let p = players[i];
        if eff_added.contains(p.id) {
            assert(match team.contact_person_id {
                Some(c) => p.id == c,
                None => false,
            });
        }
    }
    assert(result =~= players);
}

/// Fetching a freshly created team by its new id returns exactly the row
/// that creation appended, scalar fields included: a create-then-fetch
/// round trip loses nothing.
pub proof fn lemma_create_then_fetch_team(teams: Seq<Team>, row: Team)
    requires
        forall|i: int| 0 <= i < teams.len() ==> (#[trigger] teams[i]).id != row.id,
    ensures
        spec_find_team_by_id(teams.push(row), row.id) == Some(row),
{
    let s = teams.push(row);
    lemma_find_first_at(s, |t: Team| t.id == row.id, teams.len() as int);
}

} // verus!
