//! Backups of the model database: where they live, what they are called,
//! and the messages of the backup commands.  Copying files is left to the
//! caller.

use vstd::prelude::*;
use vstd::string::*;
use crate::analysis::languages::{extension_of, spec_extension, trim_end_slashes, trimmed_end_slashes};
use crate::domain::time::{compact_stamp, local_now_fields, spec_compact_stamp, CivilTime};
use crate::order::{sorted_distinct, strictly_sorted, strs_view};
use crate::text::{chars_of, last_index_of, rfind_char, slice_chars, str_is, string_of};

verus! {

/// Manages the backups of one database file.
#[derive(Debug)]
pub struct BackupManager {
    pub db_path: String,
}

/// The directory of a file path, as `Path::parent` gives it for a path
/// without trailing or doubled separators: none for the empty path, the
/// empty path for a bare file name, `/` for a file at the root.
pub open spec fn path_parent(p: Seq<char>) -> Option<Seq<char>> {
    if p.len() == 0 {
        None
    } else {
        let k = rfind_char(p, '/', p.len() - 1);
        if k < 0 {
            Some(seq![])
        } else if k == 0 {
            Some(seq!['/'])
        } else {
            Some(p.subrange(0, k))
        }
    }
}

/// `dir` joined with `name`, as `Path::join` does for a relative `name`.
pub open spec fn join_path(dir: Seq<char>, name: Seq<char>) -> Seq<char> {
    if dir.len() == 0 {
        name
    } else if dir.last() == '/' {
        dir + name
    } else {
        dir + seq!['/'] + name
    }
}

/// The backups directory: `backups` next to the database file.
pub open spec fn spec_backup_dir(db: Seq<char>) -> Seq<char> {
    match path_parent(db) {
        Some(d) => join_path(d, "backups"@),
        None => join_path("."@, "backups"@),
    }
}

/// The file of backup `name`.
pub open spec fn spec_backup_path(db: Seq<char>, name: Seq<char>) -> Seq<char> {
    join_path(spec_backup_dir(db), name + ".db"@)
}

/// Exec form of [`join_path`].
pub fn join(dir: &str, name: &str) -> (r: String)
    ensures
        r@ == join_path(dir@, name@),
{
    let d = chars_of(dir);
    if d.len() == 0 {
        return name.to_string();
    }
    let mut s = dir.to_string();
    proof {
        reveal_strlit("/");
    }
    if d[d.len() - 1] != '/' {
        s.append("/");
    }
    s.append(name);
    assert(d@.last() == dir@.last());
    s
}

impl BackupManager {
    pub fn new(db_path: &str) -> (r: Self)
        ensures
            r.db_path@ == db_path@,
    {
        BackupManager { db_path: db_path.to_string() }
    }

    /// The directory the backups are kept in.
    pub fn backup_dir(&self) -> (r: String)
        ensures
            r@ == spec_backup_dir(self.db_path@),
    {
        let v = chars_of(self.db_path.as_str());
        if v.len() == 0 {
            return join(".", "backups");
        }
        let parent = match last_index_of(&v, '/') {
            None => string_of(&Vec::new()),
            Some(k) => {
                if k == 0 {
                    String::from_str("/")
                } else {
                    string_of(&slice_chars(&v, 0, k))
                }
            },
        };
        proof {
            reveal_strlit("/");
            assert(parent@ == path_parent(self.db_path@)->0);
        }
        join(parent.as_str(), "backups")
    }

    /// The file of backup `name`.
    pub fn backup_path(&self, name: &str) -> (r: String)
        ensures
            r@ == spec_backup_path(self.db_path@, name@),
    {
        let dir = self.backup_dir();
        let mut file = name.to_string();
        file.append(".db");
        join(dir.as_str(), file.as_str())
    }
}

/// A file name without its extension (see [`spec_extension`]) and without
/// the `/`s that end it.
pub open spec fn without_file_extension(f: Seq<char>) -> Seq<char> {
    match spec_extension(f) {
        Some(e) => trim_end_slashes(f).subrange(0, trim_end_slashes(f).len() - e.len() - 1),
        None => f,
    }
}

/// Whether a file name in the backups directory is a backup: its extension
/// is `db`.
pub open spec fn is_backup_file(f: Seq<char>) -> bool {
    spec_extension(f) == Some("db"@)
}

/// Whether `n` is the name of one of the backups among `files`.
pub open spec fn is_backup_name(files: Seq<Seq<char>>, n: Seq<char>) -> bool {
    exists|i: int|
        0 <= i < files.len() && is_backup_file(files[i]) && #[trigger] without_file_extension(
            files[i],
        ) == n
}

/// The backup names among the file names of the backups directory: the
/// stems of the `.db` files, sorted, each once.
pub fn backup_names(files: &Vec<String>) -> (r: Vec<String>)
    ensures
        strictly_sorted(strs_view(r@)),
        forall|n: Seq<char>| #[trigger] strs_view(r@).contains(n) <==> is_backup_name(strs_view(files@), n),
{
    let ghost fv = strs_view(files@);
    let mut stems: Vec<String> = Vec::new();
    let mut i: usize = 0;
    while i < files.len()
        invariant
            i <= files@.len(),
            fv == strs_view(files@),
            forall|n: Seq<char>|
                #[trigger] strs_view(stems@).contains(n) <==> exists|j: int|
                    0 <= j < i && is_backup_file(fv[j]) && #[trigger] without_file_extension(fv[j])
                        == n,
        decreases files@.len() - i,
    {
        let f = files[i].as_str();
        let ghost s0 = strs_view(stems@);
        match extension_of(f) {
            Some(e) => {
                if str_is(e.as_str(), "db") {
                    let v = trimmed_end_slashes(&chars_of(f));
                    proof {
                        crate::analysis::languages::lemma_extension_fits(f@);
                    }
                    let el = chars_of(e.as_str()).len();
                    let stem = string_of(&slice_chars(&v, 0, v.len() - el - 1));
                    stems.push(stem);
                    proof {
                        crate::order::lemma_contains_push(s0, without_file_extension(fv[i as int]));
                        assert(strs_view(stems@) =~= s0.push(without_file_extension(fv[i as int])));
                    }
                }
            },
            None => {},
        }
        proof {
            assert forall|n: Seq<char>|
                #[trigger] strs_view(stems@).contains(n) <==> exists|j: int|
                    0 <= j < i + 1 && is_backup_file(fv[j]) && #[trigger] without_file_extension(
                        fv[j],
                    ) == n by {
                if exists|j: int|
                    0 <= j < i + 1 && is_backup_file(fv[j]) && #[trigger] without_file_extension(
                        fv[j],
                    ) == n {
                    let j = choose|j: int|
                        0 <= j < i + 1 && is_backup_file(fv[j]) && #[trigger] without_file_extension(
                            fv[j],
                        ) == n;
                    if j < i {
                        assert(s0.contains(n));
                    }
                }
                if s0.contains(n) {
                    let j = choose|j: int|
                        0 <= j < i && is_backup_file(fv[j]) && #[trigger] without_file_extension(
                            fv[j],
                        ) == n;
                    assert(0 <= j < i + 1);
                }
            }
        }
        i += 1;
    }
    let r = sorted_distinct(&stems);
    r
}

/// The name of a new backup: the given one, or `backup-` and the stamp.
pub fn backup_name(name: Option<String>, stamp: &str) -> (r: String)
    ensures
        r@ == match name {
            Some(n) => n@,
            None => "backup-"@ + stamp@,
        },
{
    match name {
        Some(n) => n,
        None => {
            let mut s = String::from_str("backup-");
            s.append(stamp);
            s
        },
    }
}

/// The listing of the backups.
pub open spec fn spec_list_message(names: Seq<Seq<char>>) -> Seq<char>
    decreases names.len(),
{
    if names.len() == 0 {
        "backups:\n"@
    } else {
        spec_list_message(names.drop_last()) + "  "@ + names.last() + "\n"@
    }
}

/// The text of `backup list`: `no backups found`, or one line per backup.
pub fn list_message(names: &Vec<String>) -> (r: String)
    ensures
        names@.len() == 0 ==> r@ == "no backups found"@,
        names@.len() > 0 ==> r@ == spec_list_message(strs_view(names@)),
{
    if names.len() == 0 {
        return String::from_str("no backups found");
    }
    let ghost nv = strs_view(names@);
    let mut text = String::from_str("backups:\n");
    let mut i: usize = 0;
    while i < names.len()
        invariant
            i <= names@.len(),
            nv == strs_view(names@),
            text@ == spec_list_message(nv.subrange(0, i as int)),
        decreases names@.len() - i,
    {
        text.append("  ");
        text.append(names[i].as_str());
        text.append("\n");
        assert(nv.subrange(0, i + 1).drop_last() =~= nv.subrange(0, i as int));
        i += 1;
    }
    assert(nv.subrange(0, nv.len() as int) =~= nv);
    text
}

/// The name of a new backup: the given one, else `backup-` followed by the
/// current local time written `%Y%m%d-%H%M%S`.
pub fn new_backup_name(name: Option<String>) -> (r: String)
    ensures
        name matches Some(n) ==> r@ == n@,
        name is None ==> exists|t: CivilTime|
            t.valid() && r@ == "backup-"@ + #[trigger] spec_compact_stamp(t, "-"@),
{
    let t = local_now_fields();
    let stamp = compact_stamp(&t, "-");
    let r = backup_name(name, stamp.as_str());
    assert(name is None ==> r@ == "backup-"@ + spec_compact_stamp(t, "-"@));
    r
}

/// The report of creating a backup at `path`.
pub fn created_message(name: &str, path: &str) -> (r: String)
    ensures
        r@ == "backup created: "@ + name@ + " ("@ + path@ + ")"@,
{
    let mut s = String::from_str("backup created: ");
    s.append(name);
    s.append(" (");
    s.append(path);
    s.append(")");
    s
}

/// The report of restoring a backup.
pub fn restored_message(name: &str) -> (r: String)
    ensures
        r@ == "restored from backup: "@ + name@,
{
    let mut s = String::from_str("restored from backup: ");
    s.append(name);
    s
}

/// The report of deleting a backup.
pub fn deleted_message(name: &str) -> (r: String)
    ensures
        r@ == "deleted backup: "@ + name@,
{
    let mut s = String::from_str("deleted backup: ");
    s.append(name);
    s
}

} // verus!
