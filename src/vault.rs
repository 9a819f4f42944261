//! Where the local mock vault keeps its store.
use vstd::prelude::*;
use vstd::string::StrSliceExecFns;

verus! {

/// The name of the mock vault's store file.
pub const FILE_NAME: &'static str = "SCL-Mock";

/// `name` joined onto the directory `dir` with a `/` separator, as a
/// relative file name is joined onto a directory.
pub open spec fn joined(dir: Seq<char>, name: Seq<char>) -> Seq<char> {
    if dir.len() == 0 {
        name
    } else if dir.last() == '/' {
        dir + name
    } else {
        dir + seq!['/'] + name
    }
}

/// The vault directory: the path set in the environment, else the one in
/// the developer configuration, else the temporary directory.
pub open spec fn vault_dir(
    env_path: Option<Seq<char>>,
    dev_path: Option<Seq<char>>,
    temp_dir: Seq<char>,
) -> Seq<char> {
    match env_path {
        Some(p) => p,
        None => match dev_path {
            Some(p) => p,
            None => temp_dir,
        },
    }
}

/// Relies on `String::push_str`: appends `t` to `s`.
#[verifier::external_body]
fn push_str(s: &mut String, t: &str)
    ensures
        final(s)@ == old(s)@ + t@,
{
    s.push_str(t)
}

/// The vault directory, by the precedence of `vault_dir`.
pub fn init_vault_path(env_path: Option<String>, dev_path: Option<String>, temp_dir: String) -> (r:
    String)
    ensures
        r@ == vault_dir(
            match env_path {
                Some(p) => Some(p@),
                None => None,
            },
            match dev_path {
                Some(p) => Some(p@),
                None => None,
            },
            temp_dir@,
        ),
{
    match env_path {
        Some(p) => p,
        None => match dev_path {
            Some(p) => p,
            None => temp_dir,
        },
    }
}

/// `name` joined onto the directory `dir`.
pub fn join_path(dir: &str, name: &str) -> (r: String)
    ensures
        r@ == joined(dir@, name@),
{
    let n = dir.unicode_len();
    let mut r = dir.to_owned();
    if n == 0 {
        return name.to_owned();
    }
    if dir.get_char(n - 1) != '/' {
        push_str(&mut r, "/");
        proof {
            reveal_strlit("/");
        }
    }
    push_str(&mut r, name);
    r
}

/// The path of the mock vault's store file: `FILE_NAME` in the vault
/// directory chosen from the environment's path, the developer
/// configuration's path and the temporary directory.
pub fn mock_vault_path(env_path: Option<String>, dev_path: Option<String>, temp_dir: String) -> (r:
    String)
    ensures
        r@ == joined(
            vault_dir(
                match env_path {
                    Some(p) => Some(p@),
                    None => None,
                },
                match dev_path {
                    Some(p) => Some(p@),
                    None => None,
                },
                temp_dir@,
            ),
            FILE_NAME@,
        ),
{
    let dir = init_vault_path(env_path, dev_path, temp_dir);
    join_path(dir.as_str(), FILE_NAME)
}

} // verus!
