//! Domain-level entities as the presentation layer sees them: the surrogate
//! key is optional (unset until the entity is persisted) and the password
//! digest is not exposed.

use vstd::prelude::*;

use crate::database::models;

verus! {

/// An entity with an optional surrogate primary key.
pub trait PrimaryKey {
    /// The key as a mathematical value.
    spec fn spec_key(&self) -> Option<i64>;

    /// The key, unset while the entity has never been persisted.
    fn key(&self) -> (r: Option<i64>)
        ensures
            r == self.spec_key(),
    ;
}

/// The domain view of a whole player table.
pub open spec fn players_to_domain(rows: Seq<models::Player>) -> Seq<Player> {
    rows.map_values(|p: models::Player| player_from_row(p))
}

/// The domain view of a whole team table.
pub open spec fn teams_to_domain(rows: Seq<models::Team>) -> Seq<Team> {
    rows.map_values(|t: models::Team| team_from_row(t))
}

/// The domain view of a whole platoon table.
pub open spec fn platoons_to_domain(rows: Seq<models::Platoon>) -> Seq<Platoon> {
    rows.map_values(|p: models::Platoon| platoon_from_row(p))
}

/// A player as shown to and edited by the presentation layer.
#[derive(Debug, Clone, PartialEq)]
pub struct Player {
    pub id: Option<i64>,
    pub email: String,
    pub tag_name: String,
    pub active: bool,
    pub team_id: Option<i64>,
}

/// The domain view of a player row.
pub open spec fn player_from_row(row: models::Player) -> Player {
    Player {
        id: Some(row.id),
        email: row.email,
        tag_name: row.tag_name,
        active: row.active,
        team_id: row.team_id,
    }
}

impl PrimaryKey for Player {
    open spec fn spec_key(&self) -> Option<i64> {
        self.id
    }

    fn key(&self) -> (r: Option<i64>)
        ensures
            r == self.spec_key(),
    {
        self.id
    }
}

impl From<models::Player> for Player {
    fn from(value: models::Player) -> (r: Self) {
        Player {
            id: Some(value.id),
            email: value.email,
            tag_name: value.tag_name,
            active: value.active,
            team_id: value.team_id,
        }
    }
}

impl vstd::std_specs::convert::FromSpecImpl<models::Player> for Player {
    open spec fn obeys_from_spec() -> bool {
        true
    }

    open spec fn from_spec(v: models::Player) -> Self {
        player_from_row(v)
    }
}

/// A team as shown to and edited by the presentation layer.
#[derive(Debug, Clone, PartialEq)]
pub struct Team {
    pub id: Option<i64>,
    pub name: String,
    pub contact_person_id: Option<i64>,
    pub platoon_id: Option<i64>,
}

/// The domain view of a team row.
pub open spec fn team_from_row(row: models::Team) -> Team {
    Team {
        id: Some(row.id),
        name: row.name,
        contact_person_id: row.contact_person_id,
        platoon_id: row.platoon_id,
    }
}

impl PrimaryKey for Team {
    open spec fn spec_key(&self) -> Option<i64> {
        self.id
    }

    fn key(&self) -> (r: Option<i64>)
        ensures
            r == self.spec_key(),
    {
        self.id
    }
}

impl From<models::Team> for Team {
    fn from(value: models::Team) -> (r: Self) {
        Team {
            id: Some(value.id),
            name: value.name,
            contact_person_id: value.contact_person_id,
            platoon_id: value.platoon_id,
        }
    }
}

impl vstd::std_specs::convert::FromSpecImpl<models::Team> for Team {
    open spec fn obeys_from_spec() -> bool {
        true
    }

    open spec fn from_spec(v: models::Team) -> Self {
        team_from_row(v)
    }
}

/// A platoon as shown to and edited by the presentation layer.
#[derive(Debug, Clone, PartialEq)]
pub struct Platoon {
    pub id: Option<i64>,
    pub team: String,
    pub name: String,
    pub motto: String,
    pub leader_id: Option<i64>,
    pub deputy_leader_id: Option<i64>,
}

/// The domain view of a platoon row.
pub open spec fn platoon_from_row(row: models::Platoon) -> Platoon {
    Platoon {
        id: Some(row.id),
        team: row.team,
        name: row.name,
        motto: row.motto,
        leader_id: row.leader_id,
        deputy_leader_id: row.deputy_leader_id,
    }
}

impl PrimaryKey for Platoon {
    open spec fn spec_key(&self) -> Option<i64> {
        self.id
    }

    fn key(&self) -> (r: Option<i64>)
        ensures
            r == self.spec_key(),
    {
        self.id
    }
}

impl From<models::Platoon> for Platoon {
    fn from(value: models::Platoon) -> (r: Self) {
        Platoon {
            id: Some(value.id),
            team: value.team,
            name: value.name,
            motto: value.motto,
            leader_id: value.leader_id,
            deputy_leader_id: value.deputy_leader_id,
        }
    }
}

impl vstd::std_specs::convert::FromSpecImpl<models::Platoon> for Platoon {
    open spec fn obeys_from_spec() -> bool {
        true
    }

    open spec fn from_spec(v: models::Platoon) -> Self {
        platoon_from_row(v)
    }
}

} // verus!
