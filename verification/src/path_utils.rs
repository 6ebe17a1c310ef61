//! Path and identifier display helpers. Paths are handled as plain
//! strings; all filesystem access stays with the caller.

use vstd::prelude::*;

verus! {

/// One character of a project path mapped for the corpus directory
/// naming convention: slashes and dots become dashes.
pub open spec fn dir_name_char(c: char) -> char {
    if c == '/' || c == '.' {
        '-'
    } else {
        c
    }
}

/// A project path converted to the corpus directory name.
pub open spec fn dir_name_of(path: Seq<char>) -> Seq<char> {
    path.map_values(|c: char| dir_name_char(c))
}

/// First 8 characters of a UUID, for display.
pub fn short_uuid(uuid: &str) -> (r: String)
    ensures
        uuid@.len() >= 8 ==> r@ == uuid@.subrange(0, 8),
        uuid@.len() < 8 ==> r@ == uuid@,
{
    let n: usize = uuid.unicode_len();
    if n >= 8 {
        uuid.substring_char(0, 8).to_owned()
    } else {
        uuid.to_owned()
    }
}

/// Convert a path to the corpus project directory name format
/// (slashes and dots become dashes).
pub fn project_dir_name(path: &str) -> (r: String)
    ensures
        r@ == dir_name_of(path@),
{
    let n: usize = path.unicode_len();
    let mut r = String::new();
    let mut i: usize = 0;
    while i < n
        invariant
            n == path@.len(),
            i <= n,
            r@ == dir_name_of(path@).subrange(0, i as int),
        decreases n - i,
    {
        let c = path.get_char(i);
        if c == '/' || c == '.' {
            r.append("-");
            proof {
                reveal_strlit("-");
            }
        } else {
            r.append(path.substring_char(i, i + 1));
        }
        i = i + 1;
        proof {
            assert(r@ =~= dir_name_of(path@).subrange(0, i as int));
        }
    }
    proof {
        assert(r@ =~= dir_name_of(path@));
    }
    r
}

/// Path of a session's log file inside the corpus tree.
pub fn session_jsonl_path(claude_dir: &str, project_path: &str, session_id: &str) -> (r: String)
    ensures
        r@ == claude_dir@ + "/projects/"@ + dir_name_of(project_path@) + "/"@ + session_id@
            + ".jsonl"@,
{
    let mut r: String = claude_dir.to_owned();
    r.append("/projects/");
    let dir = project_dir_name(project_path);
    r.append(dir.as_str());
    r.append("/");
    r.append(session_id);
    r.append(".jsonl");
    r
}

/// Replace the home-directory prefix of `path` by `~` for display.
/// Empty paths, the placeholder `"unknown"`, paths not under the home
/// directory, and everything when the home directory is unknown
/// (empty), are returned unchanged.
pub fn home_to_tilde(path: &str, home: &str) -> (r: String)
    ensures
        path@.len() == 0 || path@ == "unknown"@ || home@.len() == 0 ==> r@ == path@,
        path@.len() != 0 && path@ != "unknown"@ && home@.len() != 0 ==> r@ == (if home@.len()
            <= path@.len() && path@.subrange(0, home@.len() as int) == home@ {
            "~"@ + path@.skip(home@.len() as int)
        } else {
            path@
        }),
{
    if path.unicode_len() == 0 || crate::strings::str_eq(path, "unknown")
        || home.unicode_len() == 0 {
        return path.to_owned();
    }
    if crate::strings::str_starts_with(path, home) {
        let n: usize = path.unicode_len();
        let m: usize = home.unicode_len();
        let mut r: String = "~".to_owned();
        r.append(path.substring_char(m, n));
        proof {
            assert(r@ =~= "~"@ + path@.skip(m as int));
        }
        r
    } else {
        path.to_owned()
    }
}

} // verus!
