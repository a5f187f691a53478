//! The changelog of model mutations.

use vstd::prelude::*;
use crate::domain::time::Timestamp;
use crate::text::str_is;

verus! {

/// The mutation a changelog entry records.
#[derive(Debug, Clone, Copy, PartialEq, Eq, Structural)]
pub enum ChangelogAction {
    Assert,
    Retract,
    CascadeMark,
    Depend,
    Verify,
    Sync,
    DeleteEntity,
    Migrate,
}

impl ChangelogAction {
    pub open spec fn text(self) -> Seq<char> {
        match self {
            ChangelogAction::Assert => "assert"@,
            ChangelogAction::Retract => "retract"@,
            ChangelogAction::CascadeMark => "cascade_mark"@,
            ChangelogAction::Depend => "depend"@,
            ChangelogAction::Verify => "verify"@,
            ChangelogAction::Sync => "sync"@,
            ChangelogAction::DeleteEntity => "delete_entity"@,
            ChangelogAction::Migrate => "migrate"@,
        }
    }

    pub open spec fn from_text(s: Seq<char>) -> Option<ChangelogAction> {
        if s == "assert"@ {
            Some(ChangelogAction::Assert)
        } else if s == "retract"@ {
            Some(ChangelogAction::Retract)
        } else if s == "cascade_mark"@ {
            Some(ChangelogAction::CascadeMark)
        } else if s == "depend"@ {
            Some(ChangelogAction::Depend)
        } else if s == "verify"@ {
            Some(ChangelogAction::Verify)
        } else if s == "sync"@ {
            Some(ChangelogAction::Sync)
        } else if s == "delete_entity"@ {
            Some(ChangelogAction::DeleteEntity)
        } else if s == "migrate"@ {
            Some(ChangelogAction::Migrate)
        } else {
            None
        }
    }

    pub fn as_str(&self) -> (r: &'static str)
        ensures
            r@ == self.text(),
    {
        match self {
            ChangelogAction::Assert => "assert",
            ChangelogAction::Retract => "retract",
            ChangelogAction::CascadeMark => "cascade_mark",
            ChangelogAction::Depend => "depend",
            ChangelogAction::Verify => "verify",
            ChangelogAction::Sync => "sync",
            ChangelogAction::DeleteEntity => "delete_entity",
            ChangelogAction::Migrate => "migrate",
        }
    }

    pub fn parse(s: &str) -> (r: Result<ChangelogAction, &'static str>)
        ensures
            match r {
                Ok(k) => ChangelogAction::from_text(s@) == Some(k),
                Err(e) => ChangelogAction::from_text(s@) is None && e@
                    == "invalid changelog action"@,
            },
    {
        if str_is(s, "assert") {
            Ok(ChangelogAction::Assert)
        } else if str_is(s, "retract") {
            Ok(ChangelogAction::Retract)
        } else if str_is(s, "cascade_mark") {
            Ok(ChangelogAction::CascadeMark)
        } else if str_is(s, "depend") {
            Ok(ChangelogAction::Depend)
        } else if str_is(s, "verify") {
            Ok(ChangelogAction::Verify)
        } else if str_is(s, "sync") {
            Ok(ChangelogAction::Sync)
        } else if str_is(s, "delete_entity") {
            Ok(ChangelogAction::DeleteEntity)
        } else if str_is(s, "migrate") {
            Ok(ChangelogAction::Migrate)
        } else {
            Err("invalid changelog action")
        }
    }
}

impl core::str::FromStr for ChangelogAction {
    type Err = &'static str;

    fn from_str(s: &str) -> (r: Result<ChangelogAction, &'static str>)
        ensures
            match r {
                Ok(k) => ChangelogAction::from_text(s@) == Some(k),
                Err(e) => ChangelogAction::from_text(s@) is None && e@
                    == "invalid changelog action"@,
            },
    {
        ChangelogAction::parse(s)
    }
}

/// Parsing the text of an action gives that action back.
pub proof fn lemma_changelog_action_roundtrip(k: ChangelogAction)
    ensures
        ChangelogAction::from_text(k.text()) == Some(k),
{
    reveal_strlit("assert");
    reveal_strlit("retract");
    reveal_strlit("cascade_mark");
    reveal_strlit("depend");
    reveal_strlit("verify");
    reveal_strlit("sync");
    reveal_strlit("delete_entity");
    reveal_strlit("migrate");
    assert("assert"@[0] != "retract"@[0]);
    assert("assert"@[0] != "cascade_mark"@[0]);
    assert("assert"@[0] != "depend"@[0]);
    assert("assert"@[0] != "verify"@[0]);
    assert("assert"@[1] != "sync"@[1]);
    assert("assert"@[0] != "delete_entity"@[0]);
    assert("assert"@[0] != "migrate"@[0]);
    assert("retract"@[0] != "cascade_mark"@[0]);
    assert("retract"@[0] != "depend"@[0]);
    assert("retract"@[0] != "verify"@[0]);
    assert("retract"@[0] != "sync"@[0]);
    assert("retract"@[0] != "delete_entity"@[0]);
    assert("retract"@[0] != "migrate"@[0]);
    assert("cascade_mark"@[0] != "depend"@[0]);
    assert("cascade_mark"@[0] != "verify"@[0]);
    assert("cascade_mark"@[0] != "sync"@[0]);
    assert("cascade_mark"@[0] != "delete_entity"@[0]);
    assert("cascade_mark"@[0] != "migrate"@[0]);
    assert("depend"@[0] != "verify"@[0]);
    assert("depend"@[0] != "sync"@[0]);
    assert("depend"@.len() != "delete_entity"@.len());
    assert("depend"@[0] != "migrate"@[0]);
    assert("verify"@[0] != "sync"@[0]);
    assert("verify"@[0] != "delete_entity"@[0]);
    assert("verify"@[0] != "migrate"@[0]);
    assert("sync"@[0] != "delete_entity"@[0]);
    assert("sync"@[0] != "migrate"@[0]);
    assert("delete_entity"@[0] != "migrate"@[0]);
}

/// One recorded model mutation.
#[derive(Debug, Clone, PartialEq, Eq)]
pub struct ChangelogEntry {
    pub id: String,
    pub action: ChangelogAction,
    pub target_id: String,
    pub detail: String,
    pub timestamp: Timestamp,
}

} // verus!
