//! The route pattern matcher.
//!
//! A route key is the method id, a colon and the path. A pattern is a route
//! key whose path may hold parameter segments: a segment that begins with a
//! colon stands for any one non-empty segment. Everything here is stated over
//! the keys' bytes.

use vstd::prelude::*;
use vstd::string::StringSliceAdditionalSpecFns;

verus! {

/// The byte that ends the method id and that begins a parameter segment.
pub const COLON: u8 = 58;

/// The byte that parts the segments of a path.
pub const SLASH: u8 = 47;

/// Keys whose lengths differ by more than this never match.
pub const LENGTH_SLACK: usize = 50;

/// The index of the first `byte` in `s`, or the length of `s` where it holds
/// none.
pub open spec fn first_position(s: Seq<u8>, byte: u8) -> nat
    decreases s.len(),
{
    if s.len() == 0 || s[0] == byte {
        0
    } else {
        1 + first_position(s.skip(1), byte)
    }
}

/// The segments of a path: the stretches between its slashes. A path
/// without a slash is one segment, and a slash at either end borders an
/// empty segment.
pub open spec fn segments(path: Seq<u8>) -> Seq<Seq<u8>>
    decreases path.len(),
{
    let k = first_position(path, SLASH);
    if k >= path.len() {
        seq![path]
    } else {
        seq![path.take(k as int)] + segments(path.skip(k as int + 1))
    }
}

/// A pattern segment that begins with a colon is a parameter.
pub open spec fn is_parameter(segment: Seq<u8>) -> bool {
    segment.len() > 0 && segment[0] == COLON
}

/// A parameter accepts every segment but the empty one; any other pattern
/// segment accepts only itself.
pub open spec fn segment_accepts(pattern: Seq<u8>, candidate: Seq<u8>) -> bool {
    if is_parameter(pattern) {
        candidate.len() > 0
    } else {
        pattern == candidate
    }
}

/// Two paths match when they have the same number of segments and each
/// pattern segment accepts the candidate segment in its place.
pub open spec fn path_matches(pattern: Seq<u8>, candidate: Seq<u8>) -> bool {
    let ps = segments(pattern);
    let cs = segments(candidate);
    &&& ps.len() == cs.len()
    &&& forall|i: int| 0 <= i < ps.len() ==> segment_accepts(#[trigger] ps[i], cs[i])
}

/// The bytes of a key before its first colon: the method.
pub open spec fn method_part(key: Seq<u8>) -> Seq<u8> {
    key.take(first_position(key, COLON) as int)
}

/// The bytes of a key after its first colon: the path.
pub open spec fn path_part(key: Seq<u8>) -> Seq<u8> {
    key.skip(first_position(key, COLON) as int + 1)
}

/// Whether the lengths of two keys are within the slack of each other.
pub open spec fn within_slack(a: nat, b: nat) -> bool {
    a - b <= LENGTH_SLACK && b - a <= LENGTH_SLACK
}

/// What it means for a pattern key to match a candidate key: the lengths are
/// within the slack, both hold a colon, the methods before it are the same
/// bytes, and the paths after it match segment by segment.
pub open spec fn route_matches_spec(pattern: Seq<u8>, candidate: Seq<u8>) -> bool {
    &&& within_slack(pattern.len(), candidate.len())
    &&& first_position(pattern, COLON) < pattern.len()
    &&& first_position(candidate, COLON) < candidate.len()
    &&& method_part(pattern) == method_part(candidate)
    &&& path_matches(path_part(pattern), path_part(candidate))
}

/// `first_position` is within the sequence, lands on the byte where it is
/// inside, and passes over no occurrence of it.
pub proof fn lemma_first_position(s: Seq<u8>, byte: u8)
    ensures
        first_position(s, byte) <= s.len(),
        first_position(s, byte) < s.len() ==> s[first_position(s, byte) as int] == byte,
        forall|i: int| 0 <= i < first_position(s, byte) ==> s[i] != byte,
    decreases s.len(),
{
    if s.len() == 0 || s[0] == byte {
    } else {
        let rest = s.skip(1);
        lemma_first_position(rest, byte);
        assert forall|i: int| 0 <= i < first_position(s, byte) implies s[i] != byte by {
            if i > 0 {
                assert(s[i] == rest[i - 1]);
            }
        }
    }
}

/// An index that no occurrence precedes, and that is the end or an
/// occurrence, is the first position.
pub proof fn lemma_first_position_is(s: Seq<u8>, byte: u8, k: int)
    requires
        0 <= k <= s.len(),
        forall|i: int| 0 <= i < k ==> s[i] != byte,
        k < s.len() ==> s[k] == byte,
    ensures
        first_position(s, byte) == k,
    decreases s.len(),
{
    if s.len() == 0 || s[0] == byte {
    } else {
        let rest = s.skip(1);
        assert forall|i: int| 0 <= i < k - 1 implies rest[i] != byte by {
            assert(rest[i] == s[i + 1]);
        }
        lemma_first_position_is(rest, byte, k - 1);
    }
}

/// A path has at least one segment.
pub proof fn lemma_segments_nonempty(path: Seq<u8>)
    ensures
        segments(path).len() >= 1,
    decreases path.len(),
{
    let k = first_position(path, SLASH) as int;
    if k < path.len() {
        lemma_segments_nonempty(path.skip(k + 1));
    }
}

/// Matching two paths is matching their first segments and then, where both
/// go on behind a slash, matching what follows; where only one goes on they
/// do not match.
pub proof fn lemma_path_matches_step(pattern: Seq<u8>, candidate: Seq<u8>)
    ensures
        path_matches(pattern, candidate) == ({
            let pk = first_position(pattern, SLASH);
            let ck = first_position(candidate, SLASH);
            &&& segment_accepts(pattern.take(pk as int), candidate.take(ck as int))
            &&& if pk >= pattern.len() && ck >= candidate.len() {
                true
            } else if pk < pattern.len() && ck < candidate.len() {
                path_matches(pattern.skip(pk as int + 1), candidate.skip(ck as int + 1))
            } else {
                false
            }
        }),
{
    let pk = first_position(pattern, SLASH) as int;
    let ck = first_position(candidate, SLASH) as int;
    lemma_first_position(pattern, SLASH);
    lemma_first_position(candidate, SLASH);
    let ps = segments(pattern);
    let cs = segments(candidate);
    let p_head = pattern.take(pk);
    let c_head = candidate.take(ck);
    if pk >= pattern.len() && ck >= candidate.len() {
        assert(p_head =~= pattern);
        assert(c_head =~= candidate);
        assert(ps[0] == pattern);
        assert(cs[0] == candidate);
    } else if pk < pattern.len() && ck < candidate.len() {
        let pr = segments(pattern.skip(pk + 1));
        let cr = segments(candidate.skip(ck + 1));
        assert(ps =~= seq![p_head] + pr);
        assert(cs =~= seq![c_head] + cr);
        assert(ps[0] == p_head);
        assert(cs[0] == c_head);
        if path_matches(pattern, candidate) {
            assert(segment_accepts(ps[0], cs[0]));
            assert forall|i: int| 0 <= i < pr.len() implies segment_accepts(
                #[trigger] pr[i],
                cr[i],
            ) by {
                assert(ps[i + 1] == pr[i]);
                assert(cs[i + 1] == cr[i]);
                assert(segment_accepts(ps[i + 1], cs[i + 1]));
            }
        }
        if segment_accepts(p_head, c_head) && path_matches(
            pattern.skip(pk + 1),
            candidate.skip(ck + 1),
        ) {
            assert forall|i: int| 0 <= i < ps.len() implies segment_accepts(
                #[trigger] ps[i],
                cs[i],
            ) by {
                if i > 0 {
                    assert(ps[i] == pr[i - 1]);
                    assert(cs[i] == cr[i - 1]);
                    assert(segment_accepts(pr[i - 1], cr[i - 1]));
                }
            }
        }
    } else if pk >= pattern.len() {
        lemma_segments_nonempty(candidate.skip(ck + 1));
        assert(ps.len() == 1);
        assert(cs.len() >= 2);
    } else {
        lemma_segments_nonempty(pattern.skip(pk + 1));
        assert(cs.len() == 1);
        assert(ps.len() >= 2);
    }
}

/// A path matches itself: a parameter segment is never empty.
pub proof fn lemma_path_matches_itself(path: Seq<u8>)
    ensures
        path_matches(path, path),
{
}

/// A pattern path without a colon matches only itself.
pub proof fn lemma_literal_path_matches_only_itself(pattern: Seq<u8>, candidate: Seq<u8>)
    requires
        forall|i: int| 0 <= i < pattern.len() ==> pattern[i] != COLON,
        path_matches(pattern, candidate),
    ensures
        pattern == candidate,
    decreases pattern.len(),
{
    let pk = first_position(pattern, SLASH) as int;
    let ck = first_position(candidate, SLASH) as int;
    lemma_first_position(pattern, SLASH);
    lemma_first_position(candidate, SLASH);
    lemma_path_matches_step(pattern, candidate);
    let p_head = pattern.take(pk);
    let c_head = candidate.take(ck);
    if p_head.len() > 0 {
        assert(p_head[0] == pattern[0]);
    }
    assert(!is_parameter(p_head));
    assert(p_head == c_head);
    assert(p_head.len() == pk);
    assert(c_head.len() == ck);
    if pk >= pattern.len() {
        assert(p_head =~= pattern);
        assert(c_head =~= candidate);
    } else {
        let pr = pattern.skip(pk + 1);
        let cr = candidate.skip(ck + 1);
        assert forall|i: int| 0 <= i < pr.len() implies pr[i] != COLON by {
            assert(pr[i] == pattern[i + pk + 1]);
        }
        lemma_literal_path_matches_only_itself(pr, cr);
        assert(pattern.len() == candidate.len());
        assert forall|i: int| 0 <= i < pattern.len() implies pattern[i] == candidate[i] by {
            if i < pk {
                assert(p_head[i] == pattern[i]);
                assert(c_head[i] == candidate[i]);
            } else if i > pk {
                assert(pr[i - pk - 1] == pattern[i]);
                assert(cr[i - pk - 1] == candidate[i]);
            }
        }
        assert(pattern =~= candidate);
    }
}

/// The bytes of the route key made of a method and a path: the method, a
/// colon, the path.
pub open spec fn key_bytes(method: Seq<u8>, path: Seq<u8>) -> Seq<u8> {
    method + seq![COLON] + path
}

/// A key made of a method without a colon and a path falls apart into that
/// method and that path.
pub proof fn lemma_key_parts(method: Seq<u8>, path: Seq<u8>)
    requires
        forall|i: int| 0 <= i < method.len() ==> method[i] != COLON,
    ensures
        first_position(key_bytes(method, path), COLON) == method.len(),
        method_part(key_bytes(method, path)) == method,
        path_part(key_bytes(method, path)) == path,
{
    let key = key_bytes(method, path);
    assert forall|i: int| 0 <= i < method.len() implies key[i] != COLON by {
        assert(key[i] == method[i]);
    }
    assert(key[method.len() as int] == COLON);
    lemma_first_position_is(key, COLON, method.len() as int);
    assert(method_part(key) =~= method);
    assert(path_part(key) =~= path);
}

/// Parameters decide the match. Take a pattern and a candidate of the same
/// method whose paths have the same number of segments and agree byte for
/// byte on every segment that is no parameter. Then the pattern matches the
/// candidate if every candidate segment in the place of a parameter is
/// non-empty, and does not match if one of them is empty. This holds of keys
/// whose lengths are within the slack of each other; keys further apart
/// never match.
pub proof fn lemma_parameters_decide_match(
    method: Seq<u8>,
    pattern_path: Seq<u8>,
    candidate_path: Seq<u8>,
)
    requires
        forall|i: int| 0 <= i < method.len() ==> method[i] != COLON,
        within_slack(pattern_path.len(), candidate_path.len()),
        segments(pattern_path).len() == segments(candidate_path).len(),
        forall|i: int|
            0 <= i < segments(pattern_path).len() && !is_parameter(
                #[trigger] segments(pattern_path)[i],
            ) ==> segments(pattern_path)[i] == segments(candidate_path)[i],
    ensures
        route_matches_spec(
            key_bytes(method, pattern_path),
            key_bytes(method, candidate_path),
        ) <==> (forall|i: int|
            0 <= i < segments(pattern_path).len() && is_parameter(
                #[trigger] segments(pattern_path)[i],
            ) ==> segments(candidate_path)[i].len() > 0),
{
    lemma_key_parts(method, pattern_path);
    lemma_key_parts(method, candidate_path);
    let ps = segments(pattern_path);
    let cs = segments(candidate_path);
    if forall|i: int| 0 <= i < ps.len() && is_parameter(#[trigger] ps[i]) ==> cs[i].len() > 0 {
        assert forall|i: int| 0 <= i < ps.len() implies segment_accepts(#[trigger] ps[i], cs[i]) by {
        }
    }
    if path_matches(pattern_path, candidate_path) {
        assert forall|i: int| 0 <= i < ps.len() && is_parameter(#[trigger] ps[i]) implies cs[i].len()
            > 0 by {
            assert(segment_accepts(ps[i], cs[i]));
        }
    }
}

/// The index of the first `byte` at or after `from`, or the length of `s`.
fn find_byte(s: &[u8], from: usize, byte: u8) -> (pos: usize)
    requires
        from <= s.len(),
    ensures
        from <= pos <= s.len(),
        pos - from == first_position(s@.skip(from as int), byte),
{
    let mut k: usize = from;
    while k < s.len() && s[k] != byte
        invariant
            from <= k <= s.len(),
            forall|i: int| from <= i < k ==> s@[i] != byte,
        decreases s.len() - k,
    {
        k = k + 1;
    }
    proof {
        let tail = s@.skip(from as int);
        assert forall|i: int| 0 <= i < k - from implies tail[i] != byte by {
            assert(tail[i] == s@[i + from]);
        }
        if k < s.len() {
            assert(tail[k - from] == s@[k as int]);
        }
        lemma_first_position_is(tail, byte, k - from);
    }
    k
}

/// Whether two stretches of bytes are the same.
pub(crate) fn ranges_equal(
    a: &[u8],
    a_from: usize,
    a_to: usize,
    b: &[u8],
    b_from: usize,
    b_to: usize,
) -> (same: bool)
    requires
        a_from <= a_to <= a.len(),
        b_from <= b_to <= b.len(),
    ensures
        same == (a@.subrange(a_from as int, a_to as int) == b@.subrange(
            b_from as int,
            b_to as int,
        )),
{
    let ghost left = a@.subrange(a_from as int, a_to as int);
    let ghost right = b@.subrange(b_from as int, b_to as int);
    if a_to - a_from != b_to - b_from {
        assert(left.len() != right.len());
        return false;
    }
    let n: usize = a_to - a_from;
    let mut k: usize = 0;
    while k < n
        invariant
            k <= n,
            n == a_to - a_from,
            n == b_to - b_from,
            a_from <= a_to <= a.len(),
            b_from <= b_to <= b.len(),
            left == a@.subrange(a_from as int, a_to as int),
            right == b@.subrange(b_from as int, b_to as int),
            forall|i: int| 0 <= i < k ==> left[i] == right[i],
        decreases n - k,
    {
        if a[a_from + k] != b[b_from + k] {
            assert(left[k as int] != right[k as int]);
            return false;
        }
        k = k + 1;
    }
    assert(left =~= right);
    true
}

/// Whether the route pattern matches the route key of a request.
///
/// Both are route keys: a method id, a colon and a path. Keys whose lengths
/// differ by more than fifty bytes, keys without a colon and keys with
/// different methods do not match. Otherwise the paths are compared segment
/// by segment: a pattern segment that begins with a colon accepts any
/// non-empty segment, any other accepts only the same bytes, and the two
/// paths must have the same number of segments.
pub fn route_matches(route_pattern: &str, actual_route: &str) -> (matched: bool)
    ensures
        matched == route_matches_spec(route_pattern.spec_bytes(), actual_route.spec_bytes()),
{
    let pattern = route_pattern.as_bytes();
    let actual = actual_route.as_bytes();
    let pattern_len = pattern.len();
    let actual_len = actual.len();

    if pattern_len >= actual_len {
        if pattern_len - actual_len > LENGTH_SLACK {
            return false;
        }
    } else if actual_len - pattern_len > LENGTH_SLACK {
        return false;
    }

    let pattern_colon = find_byte(pattern, 0, COLON);
    let actual_colon = find_byte(actual, 0, COLON);
    assert(pattern@.skip(0) =~= pattern@);
    assert(actual@.skip(0) =~= actual@);
    if pattern_colon >= pattern_len || actual_colon >= actual_len {
        return false;
    }
    if !ranges_equal(pattern, 0, pattern_colon, actual, 0, actual_colon) {
        return false;
    }
    let pattern_start: usize = pattern_colon + 1;
    let actual_start: usize = actual_colon + 1;
    let ghost pattern_path = pattern@.skip(pattern_start as int);
    let ghost actual_path = actual@.skip(actual_start as int);
    assert(pattern_path == path_part(pattern@));
    assert(actual_path == path_part(actual@));

    if ranges_equal(pattern, pattern_start, pattern_len, actual, actual_start, actual_len) {
        proof {
            lemma_path_matches_itself(pattern_path);
        }
        return true;
    }
    if find_byte(pattern, pattern_start, COLON) >= pattern_len {
        proof {
            lemma_first_position(pattern_path, COLON);
            if path_matches(pattern_path, actual_path) {
                lemma_literal_path_matches_only_itself(pattern_path, actual_path);
            }
        }
        return false;
    }
    let mut i: usize = pattern_start;
    let mut j: usize = actual_start;
    loop
        invariant
            pattern_len == pattern.len(),
            actual_len == actual.len(),
            pattern_start <= i <= pattern_len,
            actual_start <= j <= actual_len,
            route_matches_spec(route_pattern.spec_bytes(), actual_route.spec_bytes())
                == path_matches(pattern_path, actual_path),
            path_matches(pattern_path, actual_path) == path_matches(
                pattern@.skip(i as int),
                actual@.skip(j as int),
            ),
        decreases pattern_len - i,
    {
        let pattern_end = find_byte(pattern, i, SLASH);
        let actual_end = find_byte(actual, j, SLASH);
        let ghost p_rest = pattern@.skip(i as int);
        let ghost a_rest = actual@.skip(j as int);
        let ghost p_segment = p_rest.take(pattern_end - i);
        let ghost a_segment = a_rest.take(actual_end - j);
        proof {
            lemma_path_matches_step(p_rest, a_rest);
            assert(p_segment =~= pattern@.subrange(i as int, pattern_end as int));
            assert(a_segment =~= actual@.subrange(j as int, actual_end as int));
            if pattern_end > i {
                assert(p_segment[0] == pattern@[i as int]);
            }
        }
        let accepted = if pattern_end > i && pattern[i] == COLON {
            actual_end > j
        } else {
            ranges_equal(pattern, i, pattern_end, actual, j, actual_end)
        };
        assert(accepted == segment_accepts(p_segment, a_segment));
        if !accepted {
            return false;
        }
        if pattern_end >= pattern_len && actual_end >= actual_len {
            return true;
        }
        if pattern_end >= pattern_len || actual_end >= actual_len {
            return false;
        }
        proof {
            assert(p_rest.skip(pattern_end - i + 1) =~= pattern@.skip(pattern_end + 1));
            assert(a_rest.skip(actual_end - j + 1) =~= actual@.skip(actual_end + 1));
        }
        i = pattern_end + 1;
        j = actual_end + 1;
    }
}

} // verus!
