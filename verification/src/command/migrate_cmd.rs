//! `migrate`: moving the knowledge of one entity onto another; the checks
//! and the messages around the store's transfer.

use vstd::prelude::*;
use vstd::string::*;
use crate::text::{decimal, str_is, usize_text};

verus! {

/// The refusal when source and target are the same name, if they are.
pub fn same_name_refusal(from: &str, to: &str) -> (r: Option<String>)
    ensures
        from@ == to@ ==> r is Some && r->0@ == "source and target are the same: "@ + from@,
        from@ != to@ ==> r is None,
{
    if str_is(from, to) {
        let mut m = String::from_str("source and target are the same: ");
        m.append(from);
        Some(m)
    } else {
        None
    }
}

/// The refusal when both names resolve to the same entity id, if they do.
pub fn same_entity_refusal(from: &str, from_id: &str, to_id: &str) -> (r: Option<String>)
    ensures
        from_id@ == to_id@ ==> r is Some && r->0@
            == "source and target resolve to the same entity: "@ + from@,
        from_id@ != to_id@ ==> r is None,
{
    if str_is(from_id, to_id) {
        let mut m = String::from_str("source and target resolve to the same entity: ");
        m.append(from);
        Some(m)
    } else {
        None
    }
}

/// The changelog detail of a migration.
pub open spec fn spec_migrate_detail(src: Seq<char>, dst: Seq<char>, a: nat, r: nat) -> Seq<char> {
    "migrated "@ + src + " -> "@ + dst + " ("@ + decimal(a) + " assertions, "@ + decimal(r)
        + " relations); source deleted"@
}

/// Exec form of [`spec_migrate_detail`].
pub fn migrate_detail(src: &str, dst: &str, moved_assertions: usize, moved_relations: usize) -> (r:
    String)
    ensures
        r@ == spec_migrate_detail(src@, dst@, moved_assertions as nat, moved_relations as nat),
{
    let mut s = String::from_str("migrated ");
    s.append(src);
    s.append(" -> ");
    s.append(dst);
    s.append(" (");
    s.append(usize_text(moved_assertions).as_str());
    s.append(" assertions, ");
    s.append(usize_text(moved_relations).as_str());
    s.append(" relations); source deleted");
    s
}

/// The text a migration prints.
pub open spec fn spec_migrate_message(src: Seq<char>, dst: Seq<char>, a: nat, r: nat) -> Seq<char> {
    "Migrated "@ + decimal(a) + " assertion(s) and "@ + decimal(r) + " relation(s):\n  "@ + src
        + " -> "@ + dst + "\n"@ + "Source entity deleted.\n"@ + "Next: cog query "@ + dst
}

/// Exec form of [`spec_migrate_message`].
pub fn migrate_message(src: &str, dst: &str, moved_assertions: usize, moved_relations: usize) -> (r:
    String)
    ensures
        r@ == spec_migrate_message(src@, dst@, moved_assertions as nat, moved_relations as nat),
{
    let mut s = String::from_str("Migrated ");
    s.append(usize_text(moved_assertions).as_str());
    s.append(" assertion(s) and ");
    s.append(usize_text(moved_relations).as_str());
    s.append(" relation(s):\n  ");
    s.append(src);
    s.append(" -> ");
    s.append(dst);
    s.append("\n");
    s.append("Source entity deleted.\n");
    s.append("Next: cog query ");
    s.append(dst);
    s
}

} // verus!
