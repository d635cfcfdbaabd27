//! The role a retrieved node played, as the links the browser draws.

use vstd::prelude::*;

verus! {

/// Why expansion brought a node back: as a seed hit, as a container or a
/// contained node of another, or across a dependency edge of some kind
/// and weight.
pub enum Role {
    Seed,
    Ancestor { of: u32 },
    Child { of: u32 },
    Input { of: u32, kind: String, weight: u64 },
    Dependent { on: u32, kind: String, weight: u64 },
}

/// The node a role is relative to, and the dependency edge's kind and
/// weight where the role crossed one.
pub struct RoleLinks {
    pub via: Option<u32>,
    pub edge_kind: Option<String>,
    pub weight: Option<u64>,
}

pub fn role_links(role: &Role) -> (r: RoleLinks)
    ensures
        match *role {
            Role::Seed => r.via is None && r.edge_kind is None && r.weight is None,
            Role::Ancestor { of } => r.via == Some(of) && r.edge_kind is None && r.weight is None,
            Role::Child { of } => r.via == Some(of) && r.edge_kind is None && r.weight is None,
            Role::Input { of, kind, weight } => r.via == Some(of) && r.edge_kind == Some(kind)
                && r.weight == Some(weight),
            Role::Dependent { on, kind, weight } => r.via == Some(on) && r.edge_kind == Some(kind)
                && r.weight == Some(weight),
        },
{
    match role {
        Role::Ancestor { of } | Role::Child { of } => RoleLinks {
            via: Some(*of),
            edge_kind: None,
            weight: None,
        },
        Role::Input { of, kind, weight } => RoleLinks {
            via: Some(*of),
            edge_kind: Some(kind.clone()),
            weight: Some(*weight),
        },
        Role::Dependent { on, kind, weight } => RoleLinks {
            via: Some(*on),
            edge_kind: Some(kind.clone()),
            weight: Some(*weight),
        },
        Role::Seed => RoleLinks { via: None, edge_kind: None, weight: None },
    }
}

} // verus!
