//! Row types of the relational store: one struct per table, mirroring the
//! columns that the application logic reads and writes.

use vstd::prelude::*;

verus! {

/// A row of the players table. The password digest is stored in its
/// lowercase-hex rendering.
#[derive(Debug, Clone, PartialEq)]
pub struct Player {
    pub id: i64,
    pub email: String,
    pub tag_name: String,
    pub active: bool,
    pub team_id: Option<i64>,
    pub password_hash: String,
}

impl Player {
    /// An owned copy that is equal, field for field, to this row.
    pub fn duplicate(&self) -> (r: Self)
        ensures
            r == *self,
    {
        Player {
            id: self.id,
            email: self.email.clone(),
            tag_name: self.tag_name.clone(),
            active: self.active,
            team_id: self.team_id,
            password_hash: self.password_hash.clone(),
        }
    }
}

/// A row of the teams table.
#[derive(Debug, Clone, PartialEq)]
pub struct Team {
    pub id: i64,
    pub name: String,
    pub contact_person_id: Option<i64>,
    pub platoon_id: Option<i64>,
}

impl Team {
    /// An owned copy that is equal, field for field, to this row.
    pub fn duplicate(&self) -> (r: Self)
        ensures
            r == *self,
    {
        Team {
            id: self.id,
            name: self.name.clone(),
            contact_person_id: self.contact_person_id,
            platoon_id: self.platoon_id,
        }
    }
}

/// A row of the platoons table.
#[derive(Debug, Clone, PartialEq)]
pub struct Platoon {
    pub id: i64,
    pub team: String,
    pub name: String,
    pub motto: String,
    pub leader_id: Option<i64>,
    pub deputy_leader_id: Option<i64>,
}

impl Platoon {
    /// An owned copy that is equal, field for field, to this row.
    pub fn duplicate(&self) -> (r: Self)
        ensures
            r == *self,
    {
        Platoon {
            id: self.id,
            team: self.team.clone(),
            name: self.name.clone(),
            motto: self.motto.clone(),
            leader_id: self.leader_id,
            deputy_leader_id: self.deputy_leader_id,
        }
    }
}

} // verus!
