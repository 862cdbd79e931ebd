use vstd::prelude::*;
use vstd::string::StrSliceExecFns;
use vstd::string::StringExecFns;

verus! {

/// The operating systems for which a conventional cache root is known.
#[derive(Clone, Copy, Debug, PartialEq, Eq, Structural)]
pub enum Platform {
    MacOs,
    Windows,
    Unix,
}

/// The conventional cache root of each platform.
pub open spec fn default_root_of(p: Platform) -> Seq<char> {
    match p {
        Platform::Windows => "C:\\Users\\.m2"@,
        _ => "~/.m2"@,
    }
}

/// The child directory of the cache root that holds the downloaded artifacts.
pub open spec fn repository_segment() -> Seq<char> {
    "repository"@
}

/// What `std::path::Path::join` gives for a base path and a child path.
pub uninterp spec fn joined(base: Seq<char>, child: Seq<char>) -> Seq<char>;

/// `s` without the path separators that lead it.
pub open spec fn trim_leading_slashes(s: Seq<char>) -> Seq<char>
    decreases s.len(),
{
    if s.len() > 0 && s[0] == '/' {
        trim_leading_slashes(s.drop_first())
    } else {
        s
    }
}

/// Whether `p` starts with the home-directory shorthand.
pub open spec fn has_tilde(p: Seq<char>) -> bool {
    p.len() > 0 && p[0] == '~'
}

/// `p` with a leading `~` (and the separators after it) replaced by `home`;
/// `p` itself when it has no leading `~` or no home directory is known.
pub open spec fn expanded(p: Seq<char>, home: Option<Seq<char>>) -> Seq<char> {
    if has_tilde(p) && home is Some {
        joined(home->0, trim_leading_slashes(p.drop_first()))
    } else {
        p
    }
}

/// The view of an optional string.
pub open spec fn opt_view(o: Option<String>) -> Option<Seq<char>> {
    match o {
        Some(s) => Some(s@),
        None => None,
    }
}

/// Relies on `dirs_next::home_dir`: the current user's home directory, if it
/// can be found. It depends on the environment, so nothing is stated of it.
#[verifier::external_body]
fn home_directory() -> (r: Option<String>) {
    dirs_next::home_dir().map(|h| h.to_string_lossy().into_owned())
}

/// Relies on `std::path::Path::join`: `child` appended to `base` with the
/// platform's separator rules.
#[verifier::external_body]
fn join_path(base: &str, child: &str) -> (r: String)
    ensures
        r@ == joined(base@, child@),
{
    std::path::Path::new(base).join(child).to_string_lossy().into_owned()
}

/// The conventional cache root of a platform.
pub fn default_root(p: Platform) -> (r: String)
    ensures
        r@ == default_root_of(p),
{
    match p {
        Platform::Windows => String::from_str("C:\\Users\\.m2"),
        _ => String::from_str("~/.m2"),
    }
}

proof fn lemma_trim_from(s: Seq<char>, k: int)
    requires
        0 <= k <= s.len(),
        forall|j: int| 0 <= j < k ==> s[j] == '/',
        k == s.len() || s[k] != '/',
    ensures
        trim_leading_slashes(s) == s.subrange(k, s.len() as int),
    decreases k,
{
    if k > 0 {
        lemma_trim_from(s.drop_first(), k - 1);
        assert(s.drop_first().subrange(k - 1, s.len() - 1) =~= s.subrange(k, s.len() as int));
    } else {
        assert(s.subrange(0, s.len() as int) =~= s);
    }
}

/// Expands a leading `~` of `path` into `home`, the current user's home
/// directory as far as it is known.
pub fn expand_tilde_with(path: &str, home: Option<String>) -> (r: String)
    ensures
        r@ == expanded(path@, opt_view(home)),
{
    let n = path.unicode_len();
    if n == 0 || path.get_char(0) != '~' {
        return String::from_str(path);
    }
    match home {
        None => String::from_str(path),
        Some(h) => {
            let mut k: usize = 1;
            while k < n && path.get_char(k) == '/'
                invariant
                    n == path@.len(),
                    1 <= k <= n,
                    forall|j: int| 1 <= j < k ==> path@[j] == '/',
                decreases n - k,
            {
                k = k + 1;
            }
            let rest = path.substring_char(k, n);
            proof {
                let t = path@.drop_first();
                assert forall|j: int| 0 <= j < k - 1 implies t[j] == '/' by {
                    assert(t[j] == path@[j + 1]);
                }
                lemma_trim_from(t, k - 1);
                assert(t.subrange(k - 1, t.len() as int) =~= path@.subrange(k as int, n as int));
            }
            join_path(h.as_str(), rest)
        },
    }
}

/// Expands a leading `~` of `path` into the current user's home directory.
/// Where none can be found, `path` is kept as it is.
pub fn expand_tilde(path: &str) -> (r: String)
    ensures
        r@ == path@ || (has_tilde(path@) && exists|h: Seq<char>|
            r@ == joined(h, trim_leading_slashes(path@.drop_first()))),
        !has_tilde(path@) ==> r@ == path@,
{
    let home = home_directory();
    let r = expand_tilde_with(path, home);
    proof {
        if has_tilde(path@) && home is Some {
            let h = home->0@;
            assert(r@ == joined(h, trim_leading_slashes(path@.drop_first())));
        }
    }
    r
}

/// The repository directory under the cache root `root`, a leading `~`
/// expanded into `home`.
pub fn repository_path_with(root: &str, home: Option<String>) -> (r: String)
    ensures
        r@ == joined(expanded(root@, opt_view(home)), repository_segment()),
{
    let base = expand_tilde_with(root, home);
    join_path(base.as_str(), "repository")
}

/// The repository directory under the cache root `root`, a leading `~`
/// expanded into the current user's home directory.
pub fn get_repository_path(root: &str) -> (r: String)
    ensures
        exists|h: Option<Seq<char>>| r@ == joined(expanded(root@, h), repository_segment()),
{
    let home = home_directory();
    let r = repository_path_with(root, home);
    assert(r@ == joined(expanded(root@, opt_view(home)), repository_segment()));
    r
}

} // verus!
