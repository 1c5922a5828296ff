use vstd::prelude::*;
use vstd::string::StrSliceExecFns;
use vstd::string::StringExecFns;

verus! {

/// `name` appended to the directory `base`, with one `/` between them.
pub open spec fn join_spec(base: Seq<char>, name: Seq<char>) -> Seq<char> {
    if base.len() == 0 || base.last() == '/' {
        base + name
    } else {
        base + seq!['/'] + name
    }
}

/// Appends `name` to the directory `base`.
pub fn join_path(base: &str, name: &str) -> (r: String)
    ensures
        r@ == join_spec(base@, name@),
{
    let mut out = String::from_str(base);
    let n = base.unicode_len();
    if n > 0 && base.get_char(n - 1) != '/' {
        out.append("/");
        proof {
            reveal_strlit("/");
        }
    }
    out.append(name);
    out
}

/// The time-tracker database under the application data directory `app_dir`.
pub fn db_path(app_dir: &str) -> (r: String)
    ensures
        r@ == join_spec(app_dir@, "time_tracker.db"@),
{
    join_path(app_dir, "time_tracker.db")
}

/// The root of the Python scripts under the application data directory `app_dir`.
pub fn python_dir(app_dir: &str) -> (r: String)
    ensures
        r@ == join_spec(app_dir@, "Python"@),
{
    join_path(app_dir, "Python")
}

/// The directory of the example Python scripts.
pub fn python_examples_dir(app_dir: &str) -> (r: String)
    ensures
        r@ == join_spec(join_spec(app_dir@, "Python"@), "examples"@),
{
    let dir = python_dir(app_dir);
    join_path(dir.as_str(), "examples")
}

/// The directory of the user's own Python scripts.
pub fn python_user_dir(app_dir: &str) -> (r: String)
    ensures
        r@ == join_spec(join_spec(app_dir@, "Python"@), "user"@),
{
    let dir = python_dir(app_dir);
    join_path(dir.as_str(), "user")
}

} // verus!
