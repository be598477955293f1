//! What every request handler shares: where the public files live.
use vstd::prelude::*;
use vstd::string::*;

use crate::paths::{join_segments, normalize_request_path, resolve, segments_view};

verus! {

/// The file that a list of names leads to under `dir`.
pub open spec fn public_path(dir: Seq<char>, names: Seq<Seq<char>>) -> Seq<char> {
    dir + seq!['/'] + join_segments(names)
}

/// The file under `dir` that a request path names, or `None` where the
/// path climbs above `dir`.
pub open spec fn public_file(dir: Seq<char>, request: Seq<char>) -> Option<Seq<char>> {
    match resolve(request) {
        None => None,
        Some(names) => Some(public_path(dir, names)),
    }
}

/// The file that a request names depends on the public directory and the
/// request path alone: two lookups of the same path under the same
/// directory name the same file, byte for byte.
pub proof fn lemma_same_request_same_file(
    dir: Seq<char>,
    request: Seq<char>,
    first: Option<Seq<char>>,
    second: Option<Seq<char>>,
)
    requires
        first == public_file(dir, request),
        second == public_file(dir, request),
    ensures
        first == second,
{
}

/// The state shared, read only, by all requests.
pub struct State {
    public_dir: String,
}

impl View for State {
    type V = Seq<char>;

    /// The public directory.
    closed spec fn view(&self) -> Seq<char> {
        self.public_dir@
    }
}

impl State {
    pub fn new(public_dir: String) -> (r: Self)
        ensures
            r@ == public_dir@,
    {
        Self { public_dir }
    }

    /// The file under the public directory that a request path names, or
    /// `None` where the path climbs above the public directory.
    pub fn get_from_public(&self, path: &str) -> (r: Option<String>)
        ensures
            match r {
                None => public_file(self@, path@) is None,
                Some(file) => public_file(self@, path@) == Some(file@),
            },
    {
        let names = match normalize_request_path(path) {
            None => return None,
            Some(names) => names,
        };
        let ghost segs = segments_view(names@);
        let mut out = self.public_dir.clone();
        proof {
            reveal_strlit("/");
        }
        out.append("/");
        let n = names.len();
        let mut j: usize = 0;
        while j < n
            invariant
                n == names@.len(),
                segs == segments_view(names@),
                j <= n,
                out@ == public_path(self@, segs.take(j as int)),
                "/"@ == seq!['/'],
            decreases n - j,
        {
            proof {
                assert(segs.take(j + 1).drop_last() =~= segs.take(j as int));
                assert(segs.take(j + 1).last() == names@[j as int]@);
            }
            if j > 0 {
                out.append("/");
            } else {
                assert(segs.take(1) =~= seq![names@[0]@]);
            }
            out.append(names[j].as_str());
            j = j + 1;
        }
        proof {
            assert(segs.take(n as int) =~= segs);
        }
        Some(out)
    }
}

} // verus!
