//! Assertions: knowledge claims recorded about entities.

use vstd::prelude::*;
use vstd::string::*;
use crate::domain::time::Timestamp;
use crate::text::str_is;

verus! {

/// The kind of a knowledge claim.
#[derive(Debug, Clone, Copy, PartialEq, Eq, Structural)]
pub enum AssertionKind {
    Contract,
    Intent,
    Invariant,
    Fragility,
    Correction,
}

impl AssertionKind {
    /// The snake_case text of the kind.
    pub open spec fn text(self) -> Seq<char> {
        match self {
            AssertionKind::Contract => "contract"@,
            AssertionKind::Intent => "intent"@,
            AssertionKind::Invariant => "invariant"@,
            AssertionKind::Fragility => "fragility"@,
            AssertionKind::Correction => "correction"@,
        }
    }

    /// The kind named by `s`, if any.
    pub open spec fn from_text(s: Seq<char>) -> Option<AssertionKind> {
        if s == "contract"@ {
            Some(AssertionKind::Contract)
        } else if s == "intent"@ {
            Some(AssertionKind::Intent)
        } else if s == "invariant"@ {
            Some(AssertionKind::Invariant)
        } else if s == "fragility"@ {
            Some(AssertionKind::Fragility)
        } else if s == "correction"@ {
            Some(AssertionKind::Correction)
        } else {
            None
        }
    }

    /// The display text of the kind.
    pub fn as_str(&self) -> (r: &'static str)
        ensures
            r@ == self.text(),
    {
        match self {
            AssertionKind::Contract => "contract",
            AssertionKind::Intent => "intent",
            AssertionKind::Invariant => "invariant",
            AssertionKind::Fragility => "fragility",
            AssertionKind::Correction => "correction",
        }
    }

    /// Parses the snake_case text of a kind.
    pub fn parse(s: &str) -> (r: Result<AssertionKind, &'static str>)
        ensures
            match r {
                Ok(k) => AssertionKind::from_text(s@) == Some(k),
                Err(e) => AssertionKind::from_text(s@) is None && e@ == "invalid assertion kind"@,
            },
    {
        if str_is(s, "contract") {
            Ok(AssertionKind::Contract)
        } else if str_is(s, "intent") {
            Ok(AssertionKind::Intent)
        } else if str_is(s, "invariant") {
            Ok(AssertionKind::Invariant)
        } else if str_is(s, "fragility") {
            Ok(AssertionKind::Fragility)
        } else if str_is(s, "correction") {
            Ok(AssertionKind::Correction)
        } else {
            Err("invalid assertion kind")
        }
    }
}

impl core::str::FromStr for AssertionKind {
    type Err = &'static str;

    fn from_str(s: &str) -> (r: Result<AssertionKind, &'static str>)
        ensures
            match r {
                Ok(k) => AssertionKind::from_text(s@) == Some(k),
                Err(e) => AssertionKind::from_text(s@) is None && e@ == "invalid assertion kind"@,
            },
    {
        AssertionKind::parse(s)
    }
}

/// Parsing the text of a kind gives that kind back.
pub proof fn lemma_assertion_kind_roundtrip(k: AssertionKind)
    ensures
        AssertionKind::from_text(k.text()) == Some(k),
{
    reveal_strlit("contract");
    reveal_strlit("intent");
    reveal_strlit("invariant");
    reveal_strlit("fragility");
    reveal_strlit("correction");
    assert("contract"@[0] != "intent"@[0]);
    assert("contract"@[0] != "invariant"@[0]);
    assert("contract"@[0] != "fragility"@[0]);
    assert("contract"@[2] != "correction"@[2]);
    assert("intent"@.len() != "invariant"@.len());
    assert("intent"@[0] != "fragility"@[0]);
    assert("intent"@[0] != "correction"@[0]);
    assert("invariant"@[0] != "fragility"@[0]);
    assert("invariant"@[0] != "correction"@[0]);
    assert("fragility"@[0] != "correction"@[0]);
}

/// The lifecycle status of an assertion.
#[derive(Debug, Clone, Copy, PartialEq, Eq, Structural)]
pub enum AssertionStatus {
    Active,
    Retracted,
    Uncertain,
}

impl AssertionStatus {
    /// The snake_case text of the status.
    pub open spec fn text(self) -> Seq<char> {
        match self {
            AssertionStatus::Active => "active"@,
            AssertionStatus::Retracted => "retracted"@,
            AssertionStatus::Uncertain => "uncertain"@,
        }
    }

    /// The status named by `s`, if any.
    pub open spec fn from_text(s: Seq<char>) -> Option<AssertionStatus> {
        if s == "active"@ {
            Some(AssertionStatus::Active)
        } else if s == "retracted"@ {
            Some(AssertionStatus::Retracted)
        } else if s == "uncertain"@ {
            Some(AssertionStatus::Uncertain)
        } else {
            None
        }
    }

    /// The display text of the status.
    pub fn as_str(&self) -> (r: &'static str)
        ensures
            r@ == self.text(),
    {
        match self {
            AssertionStatus::Active => "active",
            AssertionStatus::Retracted => "retracted",
            AssertionStatus::Uncertain => "uncertain",
        }
    }

    /// Parses the snake_case text of a status.
    pub fn parse(s: &str) -> (r: Result<AssertionStatus, &'static str>)
        ensures
            match r {
                Ok(k) => AssertionStatus::from_text(s@) == Some(k),
                Err(e) => AssertionStatus::from_text(s@) is None && e@
                    == "invalid assertion status"@,
            },
    {
        if str_is(s, "active") {
            Ok(AssertionStatus::Active)
        } else if str_is(s, "retracted") {
            Ok(AssertionStatus::Retracted)
        } else if str_is(s, "uncertain") {
            Ok(AssertionStatus::Uncertain)
        } else {
            Err("invalid assertion status")
        }
    }
}

impl core::str::FromStr for AssertionStatus {
    type Err = &'static str;

    fn from_str(s: &str) -> (r: Result<AssertionStatus, &'static str>)
        ensures
            match r {
                Ok(k) => AssertionStatus::from_text(s@) == Some(k),
                Err(e) => AssertionStatus::from_text(s@) is None && e@
                    == "invalid assertion status"@,
            },
    {
        AssertionStatus::parse(s)
    }
}

/// Parsing the text of a status gives that status back.
pub proof fn lemma_assertion_status_roundtrip(k: AssertionStatus)
    ensures
        AssertionStatus::from_text(k.text()) == Some(k),
{
    reveal_strlit("active");
    reveal_strlit("retracted");
    reveal_strlit("uncertain");
    assert("active"@[0] != "retracted"@[0]);
    assert("active"@[0] != "uncertain"@[0]);
    assert("retracted"@[0] != "uncertain"@[0]);
}

/// A knowledge claim about an entity.
#[derive(Debug, PartialEq, Eq)]
pub struct Assertion {
    pub id: String,
    pub entity_id: String,
    pub kind: AssertionKind,
    pub claim: String,
    pub status: AssertionStatus,
    pub created_at: Timestamp,
    pub updated_at: Timestamp,
    pub retraction_reason: Option<String>,
}

impl Clone for Assertion {
    fn clone(&self) -> (r: Self)
        ensures
            r == *self,
    {
        Assertion {
            id: self.id.clone(),
            entity_id: self.entity_id.clone(),
            kind: self.kind,
            claim: self.claim.clone(),
            status: self.status,
            created_at: self.created_at,
            updated_at: self.updated_at,
            retraction_reason: match &self.retraction_reason {
                Some(r) => Some(r.clone()),
                None => None,
            },
        }
    }
}

impl Assertion {
    pub fn is_active(&self) -> (r: bool)
        ensures
            r == (self.status == AssertionStatus::Active),
    {
        self.status == AssertionStatus::Active
    }
}

/// The characters of the short form of an id: its first 8, or all of it
/// when it is shorter.
pub open spec fn short_chars(id: Seq<char>) -> Seq<char> {
    if id.len() >= 8 {
        id.subrange(0, 8)
    } else {
        id
    }
}

/// The first 8 characters of an id string, for display; the whole id when
/// it is shorter.
pub fn short_id(id: &str) -> (r: &str)
    ensures
        r@ == short_chars(id@),
{
    if id.unicode_len() >= 8 {
        id.substring_char(0, 8)
    } else {
        id
    }
}

/// The short form of an id, as an owned string.
pub fn short_id_string(id: &str) -> (r: String)
    ensures
        r@ == short_chars(id@),
{
    short_id(id).to_string()
}

} // verus!
