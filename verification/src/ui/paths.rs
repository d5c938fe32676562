//! Where files are kept. A path is given by its parts, the first of which is
//! the user's application data directory.

use vstd::prelude::*;

verus! {

/// The parts of a path with one part more.
pub open spec fn joined(dir: Seq<Seq<char>>, name: Seq<char>) -> Seq<Seq<char>> {
    dir.push(name)
}

/// The directory of everything that is stored.
pub open spec fn data_dir(appdata: Seq<char>) -> Seq<Seq<char>> {
    seq![appdata, "airtalk"@]
}

/// Whether a result is the given path, or the complaint that there is no
/// application data directory.
pub open spec fn is_path(
    r: Result<Vec<String>, String>,
    appdata: Option<&str>,
    name: Option<Seq<char>>,
) -> bool {
    match appdata {
        Some(dir) => r matches Ok(parts) && crate::text::texts(parts@) == (match name {
            Some(name) => joined(data_dir(dir@), name),
            None => data_dir(dir@),
        }),
        None => r matches Err(what) && what@ == "APPDATA env var not set"@,
    }
}

/// The directory of everything that is stored.
pub fn app_data_dir(appdata: Option<&str>) -> (r: Result<Vec<String>, String>)
    ensures
        is_path(r, appdata, None),
{
    match appdata {
        Some(dir) => {
            let mut parts: Vec<String> = Vec::new();
            parts.push(dir.to_owned());
            parts.push("airtalk".to_owned());
            assert(crate::text::texts(parts@) =~= data_dir(dir@));
            Ok(parts)
        },
        None => Err("APPDATA env var not set".to_owned()),
    }
}

fn in_data_dir(appdata: Option<&str>, name: &str) -> (r: Result<Vec<String>, String>)
    ensures
        is_path(r, appdata, Some(name@)),
{
    match app_data_dir(appdata) {
        Ok(parts) => {
            let mut parts = parts;
            let ghost dir = crate::text::texts(parts@);
            parts.push(name.to_owned());
            assert(crate::text::texts(parts@) =~= joined(dir, name@));
            Ok(parts)
        },
        Err(e) => Err(e),
    }
}

/// The directory of the logs.
pub fn logs_dir(appdata: Option<&str>) -> (r: Result<Vec<String>, String>)
    ensures
        is_path(r, appdata, Some("logs"@)),
{
    in_data_dir(appdata, "logs")
}

/// The settings that are no secret.
pub fn config_file(appdata: Option<&str>) -> (r: Result<Vec<String>, String>)
    ensures
        is_path(r, appdata, Some("config.toml"@)),
{
    in_data_dir(appdata, "config.toml")
}

/// The hotwords, written out for the engine.
pub fn hotwords_file(appdata: Option<&str>) -> (r: Result<Vec<String>, String>)
    ensures
        is_path(r, appdata, Some("hotwords.txt"@)),
{
    in_data_dir(appdata, "hotwords.txt")
}

/// A prompt that earlier versions wrote out for the engine.
pub fn prompt_file(appdata: Option<&str>) -> (r: Result<Vec<String>, String>)
    ensures
        is_path(r, appdata, Some("prompt.txt"@)),
{
    in_data_dir(appdata, "prompt.txt")
}

// ─── Laws ──────────────────────────────────────────────────────────────

/// Everything lies in one directory of the program's own, under the user's
/// application data; without that there is no path.
pub proof fn law_everything_lies_in_one_directory(
    r: Result<Vec<String>, String>,
    appdata: Option<&str>,
    name: Option<Seq<char>>,
)
    requires
        is_path(r, appdata, name),
    ensures
        r is Ok <==> appdata is Some,
        r matches Ok(parts) ==> {
            &&& parts@.len() == (if name is Some {
                3nat
            } else {
                2
            })
            &&& parts@[0]@ == appdata->0@
            &&& parts@[1]@ == "airtalk"@
            &&& name is Some ==> parts@[2]@ == name->0
        },
        r matches Err(what) ==> what@ == "APPDATA env var not set"@,
{
    if let Ok(parts) = r {
        let all = crate::text::texts(parts@);
        assert(all.len() == parts@.len());
        assert(all[0] == parts@[0]@ && all[1] == parts@[1]@);
        if name is Some {
            assert(all[2] == parts@[2]@);
        }
    }
}

} // verus!
