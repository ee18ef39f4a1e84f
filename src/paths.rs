use vstd::prelude::*;
use vstd::string::StringExecFns;

verus! {

/// Joining a component onto a base path the way a Unix path buffer does:
/// an absolute component replaces the base, and a separator is inserted
/// unless the base is empty or already ends in one.
pub open spec fn path_join(base: Seq<char>, part: Seq<char>) -> Seq<char> {
    if part.len() > 0 && part[0] == '/' {
        part
    } else if base.len() == 0 || base.last() == '/' {
        base + part
    } else {
        base + seq!['/'] + part
    }
}

/// The home directory: the value of the home variable, or the root when it is unset.
pub open spec fn home_of(home_var: Option<Seq<char>>) -> Seq<char> {
    match home_var {
        Some(h) => h,
        None => "/"@,
    }
}

/// `<home>/Applications/<app_name>`, composed with `path_join`.
pub open spec fn home_app(home: Seq<char>, app_name: Seq<char>) -> Seq<char> {
    path_join(path_join(home, "Applications"@), app_name)
}

/// Resolves the home directory from the home variable's value, falling back to `/`.
pub fn home_dir(home_var: Option<String>) -> (r: String)
    ensures
        r@ == home_of(home_var.deep_view()),
{
    match home_var {
        Some(h) => h,
        None => String::from_str("/"),
    }
}

/// Appends a path component to a base path.
pub fn join_path(base: &str, part: &str) -> (r: String)
    ensures
        r@ == path_join(base@, part@),
{
    let part_len = part.unicode_len();
    if part_len > 0 && part.get_char(0) == '/' {
        return String::from_str(part);
    }
    let base_len = base.unicode_len();
    let mut r = String::from_str(base);
    if base_len > 0 && base.get_char(base_len - 1) != '/' {
        proof {
            reveal_strlit("/");
        }
        r.append("/");
    }
    r.append(part);
    r
}

/// The per-user location of an application bundle: `<home>/Applications/<app_name>`.
pub fn home_app_path(home: &str, app_name: &str) -> (r: String)
    ensures
        r@ == home_app(home@, app_name@),
{
    let dir = join_path(home, "Applications");
    join_path(dir.as_str(), app_name)
}

} // verus!
