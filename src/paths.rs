//! Turning the tail of a request URL into a path under the public directory.
//!
//! A request path is split at `/` into segments. Empty segments and `.` are
//! skipped, `..` steps back up one level, and any other segment steps down
//! into a directory or names the file. A walk that would step above the
//! public directory is refused as a whole, so no request can reach a file
//! outside it.
use vstd::prelude::*;
use vstd::string::*;

verus! {

pub open spec fn dot() -> Seq<char> {
    seq!['.']
}

pub open spec fn dot_dot() -> Seq<char> {
    seq!['.', '.']
}

/// A segment that names nothing and is skipped: empty (from `//` or a
/// slash at either end) or `.`.
pub open spec fn is_skipped_segment(seg: Seq<char>) -> bool {
    seg.len() == 0 || seg == dot()
}

/// A segment that steps back up one level.
pub open spec fn is_parent_segment(seg: Seq<char>) -> bool {
    seg == dot_dot()
}

/// A segment that names a directory entry: something that can be joined
/// onto a directory without leaving it.
pub open spec fn is_name_segment(seg: Seq<char>) -> bool {
    &&& !is_skipped_segment(seg)
    &&& !is_parent_segment(seg)
    &&& !seg.contains('/')
}

/// The segments of `s` between its slashes, from left to right. A string
/// with `k` slashes has `k + 1` segments, some of which may be empty.
pub open spec fn split_segments(s: Seq<char>) -> Seq<Seq<char>>
    decreases s.len(),
{
    if s.len() == 0 {
        seq![Seq::empty()]
    } else {
        let init = split_segments(s.drop_last());
        if s.last() == '/' {
            init.push(Seq::empty())
        } else {
            init.update(init.len() - 1, init.last().push(s.last()))
        }
    }
}

/// One step of the walk: the stack of names below the root after `seg`,
/// or `None` once the walk has climbed above the root.
pub open spec fn walk_step(stack: Option<Seq<Seq<char>>>, seg: Seq<char>) -> Option<
    Seq<Seq<char>>,
> {
    match stack {
        None => None,
        Some(st) => if is_skipped_segment(seg) {
            Some(st)
        } else if is_parent_segment(seg) {
            if st.len() == 0 {
                None
            } else {
                Some(st.drop_last())
            }
        } else {
            Some(st.push(seg))
        },
    }
}

/// The names that remain after walking `segs` from the root.
pub open spec fn walk(segs: Seq<Seq<char>>) -> Option<Seq<Seq<char>>>
    decreases segs.len(),
{
    if segs.len() == 0 {
        Some(Seq::empty())
    } else {
        walk_step(walk(segs.drop_last()), segs.last())
    }
}

/// The names that a request path resolves to below the public directory,
/// or `None` where it climbs above it.
pub open spec fn resolve(request: Seq<char>) -> Option<Seq<Seq<char>>> {
    walk(split_segments(request))
}

/// The names joined by single slashes.
pub open spec fn join_segments(segs: Seq<Seq<char>>) -> Seq<char>
    decreases segs.len(),
{
    if segs.len() == 0 {
        Seq::empty()
    } else if segs.len() == 1 {
        segs[0]
    } else {
        join_segments(segs.drop_last()) + seq!['/'] + segs.last()
    }
}

/// How many levels below the root a walk along `segs` ends, counting one
/// down for each name and one up for each `..`, without stopping at the root.
pub open spec fn depth(segs: Seq<Seq<char>>) -> int
    decreases segs.len(),
{
    if segs.len() == 0 {
        0
    } else {
        depth(segs.drop_last()) + if is_parent_segment(segs.last()) {
            -1int
        } else if is_skipped_segment(segs.last()) {
            0int
        } else {
            1int
        }
    }
}

/// Some prefix of `segs` leads above the root.
pub open spec fn climbs_above_root(segs: Seq<Seq<char>>) -> bool {
    exists|k: int| 0 <= k <= segs.len() && #[trigger] depth(segs.take(k)) < 0
}

pub open spec fn segments_view(v: Seq<String>) -> Seq<Seq<char>> {
    v.map_values(|s: String| s@)
}

pub proof fn lemma_split_nonempty(s: Seq<char>)
    ensures
        split_segments(s).len() >= 1,
    decreases s.len(),
{
    if s.len() > 0 {
        lemma_split_nonempty(s.drop_last());
    }
}

/// No segment of a split contains a slash.
pub proof fn lemma_split_has_no_slash(s: Seq<char>)
    ensures
        forall|j: int|
            0 <= j < split_segments(s).len() ==> !(#[trigger] split_segments(s)[j]).contains(
                '/',
            ),
    decreases s.len(),
{
    if s.len() > 0 {
        let init = split_segments(s.drop_last());
        lemma_split_nonempty(s.drop_last());
        lemma_split_has_no_slash(s.drop_last());
        if s.last() != '/' {
            let last = init.last().push(s.last());
            assert forall|j: int| 0 <= j < split_segments(s).len() implies !(
            #[trigger] split_segments(s)[j]).contains('/') by {
                if j == init.len() - 1 {
                    if last.contains('/') {
                        let t = choose|t: int| 0 <= t < last.len() && last[t] == '/';
                        assert(init.last()[t] == '/');
                    }
                }
            }
        } else {
            assert forall|j: int| 0 <= j < split_segments(s).len() implies !(
            #[trigger] split_segments(s)[j]).contains('/') by {
                if j == init.len() {
                    assert(split_segments(s)[j] =~= Seq::<char>::empty());
                }
            }
        }
    }
}

/// The walk along `segs` succeeds exactly when no prefix climbs above the
/// root, and then ends `depth(segs)` levels down, on names only.
pub proof fn lemma_walk_depth(segs: Seq<Seq<char>>)
    ensures
        walk(segs) is None <==> climbs_above_root(segs),
        walk(segs) is Some ==> walk(segs).unwrap().len() == depth(segs),
        walk(segs) is Some ==> forall|j: int|
            0 <= j < walk(segs).unwrap().len() ==> {
                let seg = #[trigger] walk(segs).unwrap()[j];
                !is_skipped_segment(seg) && !is_parent_segment(seg)
            },
    decreases segs.len(),
{
    if segs.len() == 0 {
        assert(segs.take(0) =~= segs);
    } else {
        let init = segs.drop_last();
        let last = segs.last();
        lemma_walk_depth(init);
        assert(segs.take(segs.len() as int) =~= segs);
        assert(init.take(init.len() as int) =~= init);
        assert forall|k: int| 0 <= k <= init.len() implies #[trigger] segs.take(k) == init.take(
            k,
        ) by {
            assert(segs.take(k) =~= init.take(k));
        }
        assert(walk(segs) == walk_step(walk(init), last));
        assert(dot().len() == 1 && dot_dot().len() == 2);
        if climbs_above_root(init) {
            let k = choose|k: int| 0 <= k <= init.len() && #[trigger] depth(init.take(k)) < 0;
            assert(depth(segs.take(k)) < 0);
        } else {
            assert(depth(init.take(init.len() as int)) >= 0);
            let st = walk(init).unwrap();
            assert(walk(init) == Some(st));
            if climbs_above_root(segs) {
                let k = choose|k: int| 0 <= k <= segs.len() && #[trigger] depth(segs.take(k)) < 0;
                if k < segs.len() {
                    assert(depth(init.take(k)) < 0);
                }
                assert(depth(segs) < 0);
            }
            if is_skipped_segment(last) {
                assert(walk(segs) == Some(st));
            } else if is_parent_segment(last) {
                if st.len() == 0 {
                    assert(depth(segs.take(segs.len() as int)) < 0);
                } else {
                    assert(walk(segs) == Some(st.drop_last()));
                }
            } else {
                assert(walk(segs) == Some(st.push(last)));
                assert forall|j: int| 0 <= j < st.len() + 1 implies {
                    let seg = #[trigger] st.push(last)[j];
                    !is_skipped_segment(seg) && !is_parent_segment(seg)
                } by {
                    if j < st.len() {
                        assert(st.push(last)[j] == st[j]);
                    }
                }
            }
        }
    }
}

/// Walking segments that hold no slash leaves names only.
pub proof fn lemma_walk_names(segs: Seq<Seq<char>>)
    requires
        forall|i: int| 0 <= i < segs.len() ==> !(#[trigger] segs[i]).contains('/'),
    ensures
        walk(segs) is Some ==> forall|j: int|
            0 <= j < walk(segs).unwrap().len() ==> is_name_segment(
                #[trigger] walk(segs).unwrap()[j],
            ),
    decreases segs.len(),
{
    if segs.len() > 0 {
        let init = segs.drop_last();
        let last = segs.last();
        assert forall|i: int| 0 <= i < init.len() implies !(#[trigger] init[i]).contains('/') by {
            assert(init[i] == segs[i]);
        }
        lemma_walk_names(init);
        assert(dot().len() == 1 && dot_dot().len() == 2);
        if walk(init) is Some && walk(segs) is Some {
            let st = walk(init).unwrap();
            if is_parent_segment(last) {
                assert forall|j: int| 0 <= j < st.len() - 1 implies is_name_segment(
                    #[trigger] st.drop_last()[j],
                ) by {
                    assert(st.drop_last()[j] == st[j]);
                }
            } else if !is_skipped_segment(last) {
                assert(!segs[segs.len() - 1].contains('/'));
                assert forall|j: int| 0 <= j < st.len() + 1 implies is_name_segment(
                    #[trigger] st.push(last)[j],
                ) by {
                    if j < st.len() {
                        assert(st.push(last)[j] == st[j]);
                    }
                }
            }
        }
    }
}

/// A request path is refused exactly when some prefix of its segments
/// climbs above the public directory through `..`. A path that is accepted
/// resolves to names only: none is empty, `.` or `..`, and none holds a
/// slash, so joining them onto the public directory stays inside it.
pub proof fn lemma_resolve_stays_inside(request: Seq<char>)
    ensures
        resolve(request) is None <==> climbs_above_root(split_segments(request)),
        resolve(request) is Some ==> forall|j: int|
            0 <= j < resolve(request).unwrap().len() ==> is_name_segment(
                #[trigger] resolve(request).unwrap()[j],
            ),
{
    lemma_walk_depth(split_segments(request));
    lemma_split_has_no_slash(request);
    lemma_walk_names(split_segments(request));
}

/// Whether `seg` is `.` (for `n` of one) or `..` (for `n` of two).
fn is_dots(seg: &str, n: usize) -> (r: bool)
    requires
        n == 1 || n == 2,
    ensures
        r == (seg@ == if n == 1 {
            dot()
        } else {
            dot_dot()
        }),
{
    let len = seg.unicode_len();
    if len != n {
        return false;
    }
    let first = seg.get_char(0);
    if n == 1 {
        if first == '.' {
            assert(seg@ =~= dot());
        }
        first == '.'
    } else {
        let second = seg.get_char(1);
        if first == '.' && second == '.' {
            assert(seg@ =~= dot_dot());
        }
        first == '.' && second == '.'
    }
}

/// Applies one segment to the stack of names; false where it climbs above
/// the root, in which case the stack is left as it was.
fn push_segment(stack: &mut Vec<String>, seg: &str) -> (ok: bool)
    ensures
        ok == walk_step(Some(segments_view(old(stack)@)), seg@) is Some,
        ok ==> Some(segments_view(final(stack)@)) == walk_step(
            Some(segments_view(old(stack)@)),
            seg@,
        ),
{
    if seg.unicode_len() == 0 || is_dots(seg, 1) {
        true
    } else if is_dots(seg, 2) {
        if stack.len() == 0 {
            false
        } else {
            stack.pop();
            assert(segments_view(stack@) =~= segments_view(old(stack)@).drop_last());
            true
        }
    } else {
        stack.push(seg.to_owned());
        assert(segments_view(stack@) =~= segments_view(old(stack)@).push(seg@));
        true
    }
}

/// The names that `request` resolves to below the root, or `None` where
/// it climbs above the root.
pub fn normalize_request_path(request: &str) -> (r: Option<Vec<String>>)
    ensures
        match r {
            None => resolve(request@) is None,
            Some(v) => resolve(request@) == Some(segments_view(v@)),
        },
{
    let n = request.unicode_len();
    let mut stack: Vec<String> = Vec::new();
    let mut climbed = false;
    let mut start: usize = 0;
    let mut i: usize = 0;
    proof {
        assert(request@.take(0) =~= Seq::<char>::empty());
        assert(segments_view(stack@) =~= Seq::<Seq<char>>::empty());
        assert(request@.subrange(0, 0) =~= Seq::<char>::empty());
    }
    while i < n
        invariant
            n == request@.len(),
            start <= i <= n,
            split_segments(request@.take(i as int)).len() >= 1,
            split_segments(request@.take(i as int)).last() == request@.subrange(
                start as int,
                i as int,
            ),
            walk(split_segments(request@.take(i as int)).drop_last()) == if climbed {
                None
            } else {
                Some(segments_view(stack@))
            },
        decreases n - i,
    {
        let ghost segs = split_segments(request@.take(i as int));
        let ghost next = request@.take(i + 1);
        proof {
            assert(next.drop_last() =~= request@.take(i as int));
            lemma_split_nonempty(next);
        }
        let c = request.get_char(i);
        if c == '/' {
            if !climbed {
                let seg = request.substring_char(start, i);
                climbed = !push_segment(&mut stack, seg);
            }
            proof {
                assert(split_segments(next).drop_last() =~= segs);
                assert(request@.subrange(i + 1, i + 1) =~= Seq::<char>::empty());
            }
            start = i + 1;
        } else {
            proof {
                assert(split_segments(next).drop_last() =~= segs.drop_last());
                assert(request@.subrange(start as int, i + 1) =~= request@.subrange(
                    start as int,
                    i as int,
                ).push(c));
            }
        }
        i = i + 1;
    }
    proof {
        assert(request@.take(n as int) =~= request@);
    }
    if climbed {
        return None;
    }
    let seg = request.substring_char(start, n);
    if push_segment(&mut stack, seg) {
        Some(stack)
    } else {
        None
    }
}

} // verus!
