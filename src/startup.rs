//! What the server decides before it accepts a connection: whether it can
//! start at all, and where it listens.
use vstd::prelude::*;
use vstd::string::*;

verus! {

/// The loopback port of a development server.
pub const PORT: u16 = 8080;

/// Where the server accepts connections.
pub enum ListenTarget {
    /// TCP on 127.0.0.1, for development.
    Loopback { port: u16 },
    /// A local socket that already exists, for production.
    UnixSocket { path: String },
}

/// Why the server cannot start.
#[derive(Clone, Copy, Debug, PartialEq, Eq, Structural)]
pub enum StartupError {
    TemplatesDirMissing,
    PublicDirMissing,
    SocketNotSet,
}

/// The lower-case form of a string, as Rust's `str::to_lowercase` gives it.
pub uninterp spec fn lower_of(s: Seq<char>) -> Seq<char>;

/// Relies on str::to_lowercase: the lower-case form depends on the
/// characters alone.
#[verifier::external_body]
fn lowercase(s: &str) -> (r: String)
    ensures
        r@ == lower_of(s@),
{
    s.to_lowercase()
}

pub open spec fn prod_marker() -> Seq<char> {
    seq!['p', 'r', 'o', 'd']
}

/// Whether `needle` occurs in `s` as a run of consecutive characters.
pub open spec fn contains_run(s: Seq<char>, needle: Seq<char>) -> bool {
    exists|i: int| 0 <= i && i + needle.len() <= s.len() && #[trigger] s.subrange(i, i + needle.len()) == needle
}

/// The environment name that stands where none is given.
pub open spec fn default_environment() -> Seq<char> {
    "development"@
}

/// Whether an environment name, already in lower case, names production.
pub fn names_production(lowered: &str) -> (r: bool)
    ensures
        r == contains_run(lowered@, prod_marker()),
{
    let n = lowered.unicode_len();
    if n < 4 {
        return false;
    }
    let mut i: usize = 0;
    while i <= n - 4
        invariant
            n == lowered@.len(),
            n >= 4,
            i <= n - 3,
            forall|j: int| 0 <= j < i ==> #[trigger] lowered@.subrange(j, j + 4) != prod_marker(),
        decreases n - i,
    {
        if lowered.get_char(i) == 'p' && lowered.get_char(i + 1) == 'r' && lowered.get_char(i + 2)
            == 'o' && lowered.get_char(i + 3) == 'd' {
            assert(lowered@.subrange(i as int, i + 4) =~= prod_marker());
            return true;
        }
        assert(lowered@.subrange(i as int, i + 4)[0] == lowered@[i as int]);
        assert(lowered@.subrange(i as int, i + 4)[1] == lowered@[i + 1]);
        assert(lowered@.subrange(i as int, i + 4)[2] == lowered@[i + 2]);
        assert(lowered@.subrange(i as int, i + 4)[3] == lowered@[i + 3]);
        i = i + 1;
    }
    false
}

/// Whether an environment name names production: "prod" occurs in it,
/// whatever the case of its letters.
pub fn is_production(environment: &str) -> (r: bool)
    ensures
        r == contains_run(lower_of(environment@), prod_marker()),
{
    let lowered = lowercase(environment);
    names_production(lowered.as_str())
}

/// The environment name given, or "development" where none is.
pub fn environment_or_default(given: Option<String>) -> (r: String)
    ensures
        r@ == match given {
            Some(name) => name@,
            None => default_environment(),
        },
{
    match given {
        Some(name) => name,
        None => "development".to_owned(),
    }
}

/// Where the server listens, given the socket path of a production server,
/// once both directories are known to be there.
pub open spec fn listen_target_for(production: bool, socket: Option<String>) -> Result<
    ListenTarget,
    StartupError,
> {
    if !production {
        Ok(ListenTarget::Loopback { port: PORT })
    } else {
        match socket {
            Some(path) => Ok(ListenTarget::UnixSocket { path }),
            None => Err(StartupError::SocketNotSet),
        }
    }
}

/// Decides whether the server can start and where it listens. A missing
/// templates directory, then a missing public directory, stops it before
/// anything else; so does a production environment without a socket path.
pub fn startup_plan(
    templates_present: bool,
    public_present: bool,
    environment: &str,
    socket: Option<String>,
) -> (r: Result<ListenTarget, StartupError>)
    ensures
        !templates_present ==> r == Err::<ListenTarget, StartupError>(
            StartupError::TemplatesDirMissing,
        ),
        templates_present && !public_present ==> r == Err::<ListenTarget, StartupError>(
            StartupError::PublicDirMissing,
        ),
        templates_present && public_present ==> r == listen_target_for(
            contains_run(lower_of(environment@), prod_marker()),
            socket,
        ),
{
    if !templates_present {
        return Err(StartupError::TemplatesDirMissing);
    }
    if !public_present {
        return Err(StartupError::PublicDirMissing);
    }
    if is_production(environment) {
        match socket {
            Some(path) => Ok(ListenTarget::UnixSocket { path }),
            None => Err(StartupError::SocketNotSet),
        }
    } else {
        Ok(ListenTarget::Loopback { port: PORT })
    }
}

} // verus!
