//! Joining an untrusted relative path onto a trusted root directory.
//!
//! A relative path is read as a list of segments separated by `/`. Empty
//! segments and `.` are dropped, every other segment but `..` is a name, and
//! a path that holds `..` or starts at the file-system root is refused as a
//! whole. What is accepted therefore only ever descends from the root.
//!
//! The separator is `/` alone, as in the path of a URL: every other
//! character, a backslash or a colon included, is part of a name.

use vstd::prelude::*;
use vstd::slice::slice_subrange;
use crate::text::{append_chars, chars_of, option_string_text, string_of};

verus! {

/// The segments of `s`: the stretches between its `/` characters, in order.
/// There is always at least one; next to a `/` at either end, or between
/// two of them, lies an empty segment.
pub open spec fn segments(s: Seq<char>) -> Seq<Seq<char>>
    decreases s.len(),
{
    if s.len() == 0 {
        seq![Seq::empty()]
    } else {
        let before = segments(s.drop_last());
        if s.last() == '/' {
            before.push(Seq::empty())
        } else {
            before.drop_last().push(before.last().push(s.last()))
        }
    }
}

/// A segment that steps up to the parent directory.
pub open spec fn is_parent(segment: Seq<char>) -> bool {
    segment == seq!['.', '.']
}

/// A segment that names nothing: an empty one, or `.`.
pub open spec fn is_skipped(segment: Seq<char>) -> bool {
    segment.len() == 0 || segment == seq!['.']
}

/// Whether `rel` starts at the file-system root.
pub open spec fn is_absolute(rel: Seq<char>) -> bool {
    rel.len() > 0 && rel[0] == '/'
}

/// Whether one of the segments of `rel` is `..`.
pub open spec fn has_parent_segment(rel: Seq<char>) -> bool {
    exists|i: int| 0 <= i < segments(rel).len() && is_parent(#[trigger] segments(rel)[i])
}

/// `base` with the name `segment` added below it. A separator is put
/// between the two unless `base` is empty or ends with one.
pub open spec fn push_segment(base: Seq<char>, segment: Seq<char>) -> Seq<char> {
    if base.len() > 0 && base.last() != '/' {
        base.push('/') + segment
    } else {
        base + segment
    }
}

/// `base` with the names among `segs` added below it one after the other.
pub open spec fn join_segments(base: Seq<char>, segs: Seq<Seq<char>>) -> Seq<char>
    decreases segs.len(),
{
    if segs.len() == 0 {
        base
    } else {
        let joined = join_segments(base, segs.drop_last());
        if is_skipped(segs.last()) {
            joined
        } else {
            push_segment(joined, segs.last())
        }
    }
}

/// The path that `rel` names below `root`, or `None` where `rel` is absolute
/// or holds a `..` segment.
pub open spec fn safe_join_spec(root: Seq<char>, rel: Seq<char>) -> Option<Seq<char>> {
    if is_absolute(rel) || has_parent_segment(rel) {
        None
    } else {
        Some(join_segments(root, segments(rel)))
    }
}

/// There is always a segment.
pub proof fn lemma_segments_nonempty(s: Seq<char>)
    ensures
        segments(s).len() >= 1,
    decreases s.len(),
{
    if s.len() > 0 {
        lemma_segments_nonempty(s.drop_last());
    }
}

/// Reading one more character either opens a new, empty segment or
/// lengthens the last one; the segments before it stay as they are.
pub proof fn lemma_segments_step(s: Seq<char>, i: int)
    requires
        0 <= i < s.len(),
    ensures
        segments(s.take(i)).len() >= 1,
        s[i] == '/' ==> segments(s.take(i + 1)) == segments(s.take(i)).push(Seq::empty()),
        s[i] != '/' ==> segments(s.take(i + 1)) == segments(s.take(i)).drop_last().push(
            segments(s.take(i)).last().push(s[i]),
        ),
{
    lemma_segments_nonempty(s.take(i));
    assert(s.take(i + 1).drop_last() == s.take(i));
    assert(s.take(i + 1).last() == s[i]);
}

/// The segments of a prefix of `s`, but for the last of them, are segments
/// of `s` itself, at the same places.
pub proof fn lemma_segments_prefix(s: Seq<char>, i: int)
    requires
        0 <= i <= s.len(),
    ensures
        1 <= segments(s.take(i)).len() <= segments(s).len(),
        forall|k: int|
            0 <= k < segments(s.take(i)).len() - 1 ==> segments(s)[k] == segments(s.take(i))[k],
    decreases s.len() - i,
{
    lemma_segments_nonempty(s.take(i));
    if i == s.len() {
        assert(s.take(i) == s);
    } else {
        lemma_segments_step(s, i);
        lemma_segments_prefix(s, i + 1);
    }
}

/// A string without `/` is its own single segment.
pub proof fn lemma_single_segment(s: Seq<char>)
    requires
        forall|i: int| 0 <= i < s.len() ==> s[i] != '/',
    ensures
        segments(s) == seq![s],
    decreases s.len(),
{
    if s.len() > 0 {
        lemma_single_segment(s.drop_last());
        assert(s.drop_last().push(s.last()) == s);
        assert(seq![s.drop_last()].drop_last().push(s) == seq![s]);
    } else {
        assert(s == Seq::<char>::empty());
    }
}

/// No segment holds a `/`.
pub proof fn lemma_segments_hold_no_separator(s: Seq<char>)
    ensures
        forall|k: int, j: int|
            0 <= k < segments(s).len() && 0 <= j < segments(s)[k].len() ==> segments(s)[k][j]
                != '/',
    decreases s.len(),
{
    if s.len() > 0 {
        lemma_segments_hold_no_separator(s.drop_last());
        lemma_segments_nonempty(s.drop_last());
    }
}

/// The segments of two strings put together with a `/` between them are
/// those of the first followed by those of the second.
pub proof fn lemma_segments_concat(a: Seq<char>, b: Seq<char>)
    ensures
        segments(a.push('/') + b) == segments(a) + segments(b),
    decreases b.len(),
{
    let s = a.push('/') + b;
    if b.len() == 0 {
        assert(s == a.push('/'));
        assert(s.drop_last() == a);
        assert(segments(a).push(Seq::empty()) == segments(a) + seq![Seq::<char>::empty()]);
    } else {
        lemma_segments_concat(a, b.drop_last());
        lemma_segments_nonempty(b.drop_last());
        assert(s.drop_last() == a.push('/') + b.drop_last());
        assert(s.last() == b.last());
        let x = segments(a);
        let y = segments(b.drop_last());
        if b.last() == '/' {
            assert((x + y).push(Seq::empty()) == x + y.push(Seq::empty()));
        } else {
            assert((x + y).drop_last() == x + y.drop_last());
            assert((x + y).last() == y.last());
            assert((x + y.drop_last()).push(y.last().push(b.last())) == x + y.drop_last().push(
                y.last().push(b.last()),
            ));
        }
    }
}

/// A relative path that starts at the file-system root is refused.
pub proof fn lemma_absolute_path_refused(root: Seq<char>, rel: Seq<char>)
    requires
        rel.len() > 0,
        rel[0] == '/',
    ensures
        safe_join_spec(root, rel) is None,
{
}

/// A relative path with `..` anywhere as a whole segment is refused: at the
/// start, at the end, or between two separators, and whatever stands before
/// and after it.
pub proof fn lemma_parent_directory_refused(root: Seq<char>, before: Seq<char>, after: Seq<char>)
    requires
        before.len() == 0 || before.last() == '/',
        after.len() == 0 || after[0] == '/',
    ensures
        safe_join_spec(root, before + seq!['.', '.'] + after) is None,
{
    let up = seq!['.', '.'];
    let rel = before + up + after;
    lemma_single_segment(up);
    // the segments of `..` and what follows it
    let tail = up + after;
    if after.len() == 0 {
        assert(tail == up);
    } else {
        lemma_segments_concat(up, after.skip(1));
        assert(tail == up.push('/') + after.skip(1));
    }
    assert(segments(tail)[0] == up);
    lemma_segments_nonempty(tail);
    if before.len() == 0 {
        assert(rel == tail);
        assert(is_parent(segments(rel)[0]));
    } else {
        let head = before.drop_last();
        lemma_segments_concat(head, tail);
        assert(rel == head.push('/') + tail);
        assert(segments(rel)[segments(head).len() as int] == up);
        assert(is_parent(segments(rel)[segments(head).len() as int]));
    }
}

/// Names added below `base` stay below it: the result of joining starts with
/// `base`, and what follows `base` in it has no `..` segment, as long as no
/// name is `..` or holds a `/`.
pub proof fn lemma_join_stays_below(base: Seq<char>, segs: Seq<Seq<char>>)
    requires
        forall|k: int| 0 <= k < segs.len() ==> !is_parent(#[trigger] segs[k]),
        forall|k: int, j: int|
            0 <= k < segs.len() && 0 <= j < segs[k].len() ==> segs[k][j] != '/',
    ensures
        base.len() <= join_segments(base, segs).len(),
        join_segments(base, segs).take(base.len() as int) == base,
        !has_parent_segment(join_segments(base, segs).skip(base.len() as int)),
    decreases segs.len(),
{
    let n = base.len() as int;
    if segs.len() == 0 {
        assert(base.take(n) == base);
        assert(base.skip(n) == Seq::<char>::empty());
        assert(segments(Seq::<char>::empty()) == seq![Seq::<char>::empty()]);
    } else {
        lemma_join_stays_below(base, segs.drop_last());
        let joined = join_segments(base, segs.drop_last());
        let name = segs.last();
        let below = joined.skip(n);
        if !is_skipped(name) {
            let next = push_segment(joined, name);
            let tail = next.skip(n);
            assert(next.take(n) == joined.take(n));
            lemma_single_segment(name);
            if joined.len() > 0 && joined.last() != '/' {
                assert(tail == below.push('/') + name);
                lemma_segments_concat(below, name);
            } else if below.len() == 0 {
                assert(tail == name);
            } else {
                let stem = below.drop_last();
                assert(below == stem.push('/'));
                assert(tail == stem.push('/') + name);
                lemma_segments_concat(stem, name);
                lemma_segments_concat(stem, Seq::<char>::empty());
                assert(stem.push('/') + Seq::<char>::empty() == below);
                assert forall|k: int| 0 <= k < segments(stem).len() implies !is_parent(
                    #[trigger] segments(stem)[k],
                ) by {
                    assert(segments(below)[k] == segments(stem)[k]);
                }
            }
            assert forall|k: int| 0 <= k < segments(tail).len() implies !is_parent(
                #[trigger] segments(tail)[k],
            ) by {
                if joined.len() > 0 && joined.last() != '/' {
                    if k < segments(below).len() {
                        assert(segments(tail)[k] == segments(below)[k]);
                    }
                } else if below.len() > 0 {
                    let stem = below.drop_last();
                    if k < segments(stem).len() {
                        assert(segments(tail)[k] == segments(stem)[k]);
                    }
                }
            }
        }
    }
}

/// Whatever `safe_join_spec` accepts lies below the root: the joined path
/// starts with `root`, and the part after `root` never steps up.
pub proof fn lemma_joined_path_stays_below_root(root: Seq<char>, rel: Seq<char>)
    requires
        safe_join_spec(root, rel) is Some,
    ensures
        root.len() <= safe_join_spec(root, rel)->0.len(),
        safe_join_spec(root, rel)->0.take(root.len() as int) == root,
        !has_parent_segment(safe_join_spec(root, rel)->0.skip(root.len() as int)),
{
    lemma_segments_hold_no_separator(rel);
    lemma_join_stays_below(root, segments(rel));
}

fn is_parent_segment(segment: &[char]) -> (r: bool)
    ensures
        r == is_parent(segment@),
{
    if segment.len() == 2 && segment[0] == '.' && segment[1] == '.' {
        assert(segment@ == seq!['.', '.']);
        true
    } else {
        assert(seq!['.', '.'].len() == 2);
        false
    }
}

fn is_skipped_segment(segment: &[char]) -> (r: bool)
    ensures
        r == is_skipped(segment@),
{
    if segment.len() == 0 {
        true
    } else if segment.len() == 1 && segment[0] == '.' {
        assert(segment@ == seq!['.']);
        true
    } else {
        assert(seq!['.'].len() == 1);
        false
    }
}

/// Adds the name `segment` below the path held in `out`.
pub fn push_name(out: &mut Vec<char>, segment: &[char])
    ensures
        final(out)@ == push_segment(old(out)@, segment@),
{
    if out.len() > 0 && out[out.len() - 1] != '/' {
        out.push('/');
    }
    append_chars(out, segment);
}

/// Joins the untrusted relative path `rel` onto the directory `root`.
///
/// Returns `None` when `rel` starts with `/` or has a `..` segment, and
/// otherwise `root` followed by the names of `rel`, one level each.
pub fn safe_join(root: &str, rel: &str) -> (joined: Option<String>)
    ensures
        option_string_text(joined) == safe_join_spec(root@, rel@),
{
    let rel_chars = chars_of(rel);
    let rel_chars = rel_chars.as_slice();
    if rel_chars.len() > 0 && rel_chars[0] == '/' {
        return None;
    }
    let mut out = chars_of(root);
    let mut start: usize = 0;
    let mut i: usize = 0;
    let ghost mut done: Seq<Seq<char>> = Seq::empty();
    proof {
        assert(rel@.take(0) == Seq::<char>::empty());
        assert(rel@.subrange(0, 0) == Seq::<char>::empty());
        assert(segments(rel@.take(0)) == done.push(rel@.subrange(0, 0)));
    }
    while i < rel_chars.len()
        invariant
            rel_chars@ == rel@,
            start <= i <= rel_chars.len(),
            segments(rel@.take(i as int)) == done.push(rel@.subrange(start as int, i as int)),
            forall|k: int| 0 <= k < done.len() ==> !is_parent(#[trigger] done[k]),
            out@ == join_segments(root@, done),
        decreases rel_chars.len() - i,
    {
        proof {
            lemma_segments_step(rel@, i as int);
        }
        let ghost current = rel@.subrange(start as int, i as int);
        if rel_chars[i] == '/' {
            let segment = slice_subrange(rel_chars, start, i);
            if is_parent_segment(segment) {
                proof {
                    lemma_segments_prefix(rel@, i + 1);
                    assert(segments(rel@.take(i + 1))[done.len() as int] == current);
                    assert(is_parent(segments(rel@)[done.len() as int]));
                }
                return None;
            }
            if !is_skipped_segment(segment) {
                push_name(&mut out, segment);
            }
            proof {
                assert(done.push(current).drop_last() == done);
                done = done.push(current);
                assert(rel@.subrange(i + 1, i + 1) == Seq::<char>::empty());
            }
            start = i + 1;
        } else {
            proof {
                assert(done.push(current).drop_last() == done);
                assert(current.push(rel@[i as int]) == rel@.subrange(start as int, i + 1));
            }
        }
        i += 1;
    }
    let segment = slice_subrange(rel_chars, start, i);
    proof {
        assert(rel@.take(i as int) == rel@);
        assert(done.push(segment@).drop_last() == done);
    }
    if is_parent_segment(segment) {
        assert(is_parent(segments(rel@)[done.len() as int]));
        return None;
    }
    if !is_skipped_segment(segment) {
        push_name(&mut out, segment);
    }
    Some(string_of(out.as_slice()))
}

} // verus!
