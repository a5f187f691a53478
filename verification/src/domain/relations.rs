//! Relations between entities and between assertions.

use vstd::prelude::*;
use crate::domain::entity::Entity;
use crate::text::str_is;

verus! {

/// The kind of a structural relation between two entities.
#[derive(Debug, Clone, Copy, PartialEq, Eq, Structural, Hash)]
pub enum EntityRelationKind {
    Contains,
    Calls,
    Uses,
}

impl EntityRelationKind {
    pub open spec fn text(self) -> Seq<char> {
        match self {
            EntityRelationKind::Contains => "contains"@,
            EntityRelationKind::Calls => "calls"@,
            EntityRelationKind::Uses => "uses"@,
        }
    }

    pub open spec fn from_text(s: Seq<char>) -> Option<EntityRelationKind> {
        if s == "contains"@ {
            Some(EntityRelationKind::Contains)
        } else if s == "calls"@ {
            Some(EntityRelationKind::Calls)
        } else if s == "uses"@ {
            Some(EntityRelationKind::Uses)
        } else {
            None
        }
    }

    pub fn as_str(&self) -> (r: &'static str)
        ensures
            r@ == self.text(),
    {
        match self {
            EntityRelationKind::Contains => "contains",
            EntityRelationKind::Calls => "calls",
            EntityRelationKind::Uses => "uses",
        }
    }

    pub fn parse(s: &str) -> (r: Result<EntityRelationKind, &'static str>)
        ensures
            match r {
                Ok(k) => EntityRelationKind::from_text(s@) == Some(k),
                Err(e) => EntityRelationKind::from_text(s@) is None && e@
                    == "invalid entity relation kind"@,
            },
    {
        if str_is(s, "contains") {
            Ok(EntityRelationKind::Contains)
        } else if str_is(s, "calls") {
            Ok(EntityRelationKind::Calls)
        } else if str_is(s, "uses") {
            Ok(EntityRelationKind::Uses)
        } else {
            Err("invalid entity relation kind")
        }
    }
}

impl core::str::FromStr for EntityRelationKind {
    type Err = &'static str;

    fn from_str(s: &str) -> (r: Result<EntityRelationKind, &'static str>)
        ensures
            match r {
                Ok(k) => EntityRelationKind::from_text(s@) == Some(k),
                Err(e) => EntityRelationKind::from_text(s@) is None && e@
                    == "invalid entity relation kind"@,
            },
    {
        EntityRelationKind::parse(s)
    }
}

/// Parsing the text of a relation kind gives that kind back.
pub proof fn lemma_entity_relation_kind_roundtrip(k: EntityRelationKind)
    ensures
        EntityRelationKind::from_text(k.text()) == Some(k),
{
    reveal_strlit("contains");
    reveal_strlit("calls");
    reveal_strlit("uses");
    assert("contains"@[2] != "calls"@[2]);
    assert("contains"@[0] != "uses"@[0]);
    assert("calls"@[0] != "uses"@[0]);
}

/// The kind of a relation between two assertions.
#[derive(Debug, Clone, Copy, PartialEq, Eq, Structural)]
pub enum AssertionRelationKind {
    DependsOn,
}

impl AssertionRelationKind {
    pub open spec fn text(self) -> Seq<char> {
        "depends_on"@
    }

    pub fn as_str(&self) -> (r: &'static str)
        ensures
            r@ == self.text(),
    {
        "depends_on"
    }

    pub fn parse(s: &str) -> (r: Result<AssertionRelationKind, &'static str>)
        ensures
            match r {
                Ok(k) => s@ == "depends_on"@ && k == AssertionRelationKind::DependsOn,
                Err(e) => s@ != "depends_on"@ && e@ == "invalid assertion relation kind"@,
            },
    {
        if str_is(s, "depends_on") {
            Ok(AssertionRelationKind::DependsOn)
        } else {
            Err("invalid assertion relation kind")
        }
    }
}

impl core::str::FromStr for AssertionRelationKind {
    type Err = &'static str;

    fn from_str(s: &str) -> (r: Result<AssertionRelationKind, &'static str>)
        ensures
            match r {
                Ok(k) => s@ == "depends_on"@ && k == AssertionRelationKind::DependsOn,
                Err(e) => s@ != "depends_on"@ && e@ == "invalid assertion relation kind"@,
            },
    {
        AssertionRelationKind::parse(s)
    }
}

/// Which way a relation points, seen from an entity.
#[derive(Debug, Clone, Copy, PartialEq, Eq, Structural, Hash)]
pub enum RelationDirection {
    Outgoing,
    Incoming,
}

/// An entity reached through a relation.
#[derive(Debug, Clone, PartialEq, Eq)]
pub struct RelatedEntity {
    pub entity: Entity,
    pub kind: EntityRelationKind,
    pub direction: RelationDirection,
}

/// A structural relation `from_entity -> to_entity`, by entity id.
#[derive(Debug, PartialEq, Eq)]
pub struct EntityRelation {
    pub id: String,
    pub from_entity: String,
    pub to_entity: String,
    pub kind: EntityRelationKind,
}

impl Clone for EntityRelation {
    fn clone(&self) -> (r: Self)
        ensures
            r == *self,
    {
        EntityRelation {
            id: self.id.clone(),
            from_entity: self.from_entity.clone(),
            to_entity: self.to_entity.clone(),
            kind: self.kind,
        }
    }
}

/// A dependency between assertions, by assertion id.
#[derive(Debug, Clone, PartialEq, Eq)]
pub struct AssertionRelation {
    pub id: String,
    pub from_assertion: String,
    pub to_assertion: String,
    pub kind: AssertionRelationKind,
}

} // verus!
