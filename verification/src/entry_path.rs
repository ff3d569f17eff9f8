//! The path under which a file of an archive is indexed: the path recorded
//! in the archive without its first component. Registries wrap every file
//! of a package in one top-level directory that means nothing.

use vstd::prelude::*;
use vstd::utf8::{decode_utf8, valid_utf8};

verus! {

/// The byte that separates the components of a path.
pub open spec fn is_separator(b: u8) -> bool {
    b == 0x2f
}

/// Where the segment that begins at `from` ends: at the next separator, or
/// at the end of the path.
pub open spec fn segment_end(path: Seq<u8>, from: int) -> int
    decreases path.len() - from,
{
    if from < 0 || from >= path.len() || is_separator(path[from]) {
        from
    } else {
        segment_end(path, from + 1)
    }
}

/// A segment that counts as a component: it is neither empty nor a single
/// dot.
pub open spec fn is_component(segment: Seq<u8>) -> bool {
    segment.len() > 0 && segment != seq![0x2eu8]
}

/// The components of `path` from position `from` on, in order. (A segment
/// never ends before it begins or behind the path; the test on its end is
/// there to show that the search comes to an end.)
pub open spec fn components_from(path: Seq<u8>, from: int) -> Seq<Seq<u8>>
    decreases path.len() - from + 1,
{
    if from < 0 || from > path.len() {
        Seq::empty()
    } else {
        let end = segment_end(path, from);
        let segment = path.subrange(from, end);
        let rest = if from <= end <= path.len() {
            components_from(path, end + 1)
        } else {
            Seq::empty()
        };
        if is_component(segment) {
            seq![segment] + rest
        } else {
            rest
        }
    }
}

/// The components joined by single separators.
pub open spec fn joined(components: Seq<Seq<u8>>) -> Seq<u8>
    decreases components.len(),
{
    if components.len() == 0 {
        Seq::empty()
    } else if components.len() == 1 {
        components[0]
    } else {
        joined(components.drop_last()) + seq![0x2fu8] + components.last()
    }
}

/// The path without its first component: what stands before the first
/// separator is dropped, whatever it is, and the components after it are
/// joined by single separators.
pub open spec fn stripped(path: Seq<u8>) -> Seq<u8> {
    joined(components_from(path, segment_end(path, 0) + 1))
}

/// A component as it stands in a path: neither empty nor a single dot, and
/// without a separator in it.
pub open spec fn is_plain_component(component: Seq<u8>) -> bool {
    is_component(component) && forall|k: int|
        0 <= k < component.len() ==> !is_separator(#[trigger] component[k])
}

/// A segment ends at the first position from its start on where a
/// separator stands or the path ends.
pub proof fn lemma_segment_end_is(path: Seq<u8>, from: int, end: int)
    requires
        0 <= from <= end <= path.len(),
        forall|k: int| from <= k < end ==> !is_separator(#[trigger] path[k]),
        end < path.len() ==> is_separator(path[end]),
    ensures
        segment_end(path, from) == end,
    decreases end - from,
{
    if from < end {
        lemma_segment_end_is(path, from + 1, end);
    }
}

/// Two components or more join to the first of them, a separator, and the
/// others joined.
pub proof fn lemma_joined_from_front(components: Seq<Seq<u8>>)
    requires
        components.len() >= 2,
    ensures
        joined(components) == components[0] + seq![0x2fu8] + joined(components.skip(1)),
    decreases components.len(),
{
    let others = components.skip(1);
    if components.len() == 2 {
        assert(components.drop_last() =~= seq![components[0]]);
        assert(others =~= seq![components[1]]);
        assert(joined(components.drop_last()) == components[0]);
        assert(joined(others) == components[1]);
    } else {
        lemma_joined_from_front(components.drop_last());
        assert(components.drop_last().skip(1) =~= others.drop_last());
        assert(components.drop_last()[0] == components[0]);
        assert(others.last() == components.last());
        assert(joined(components) =~= components[0] + seq![0x2fu8] + joined(others));
    }
}

/// Behind a prefix, plain components that were joined are found again.
pub proof fn lemma_components_of_joined(prefix: Seq<u8>, components: Seq<Seq<u8>>)
    requires
        forall|i: int| 0 <= i < components.len() ==> is_plain_component(#[trigger] components[i]),
    ensures
        components_from(prefix + joined(components), prefix.len() as int) == components,
    decreases components.len(),
{
    let path = prefix + joined(components);
    let from = prefix.len() as int;
    if components.len() == 0 {
        assert(path =~= prefix);
        assert(segment_end(path, from) == from);
        assert(path.subrange(from, from) =~= Seq::<u8>::empty());
        assert(components_from(path, from + 1) =~= Seq::<Seq<u8>>::empty());
        assert(components_from(path, from) =~= components);
    } else {
        let first = components[0];
        let end = from + first.len();
        assert(is_plain_component(first));
        if components.len() == 1 {
            assert(path =~= prefix + first);
        } else {
            lemma_joined_from_front(components);
            assert(path =~= prefix + first + seq![0x2fu8] + joined(components.skip(1)));
            assert(path[end] == 0x2fu8);
        }
        assert forall|k: int| from <= k < end implies !is_separator(#[trigger] path[k]) by {
            assert(path[k] == first[k - from]);
        }
        lemma_segment_end_is(path, from, end);
        assert(path.subrange(from, end) =~= first);
        if components.len() == 1 {
            assert(components_from(path, end + 1) =~= Seq::<Seq<u8>>::empty());
            assert(components_from(path, from) =~= components);
        } else {
            let others = components.skip(1);
            let longer = prefix + first + seq![0x2fu8];
            assert forall|i: int| 0 <= i < others.len() implies is_plain_component(
                #[trigger] others[i],
            ) by {
                assert(others[i] == components[i + 1]);
            }
            lemma_components_of_joined(longer, others);
            assert(longer + joined(others) =~= path);
            assert(longer.len() == end + 1);
            assert(components_from(path, from) =~= seq![first] + others);
            assert(seq![first] + others =~= components);
        }
    }
}

/// A path that wraps plain components in one root segment is stripped to
/// those components: of `root-seg/lib/index.js`, what is left is
/// `lib/index.js`.
pub proof fn lemma_stripped_of_wrapped(root: Seq<u8>, components: Seq<Seq<u8>>)
    requires
        forall|k: int| 0 <= k < root.len() ==> !is_separator(#[trigger] root[k]),
        forall|i: int| 0 <= i < components.len() ==> is_plain_component(#[trigger] components[i]),
    ensures
        stripped(root + seq![0x2fu8] + joined(components)) == joined(components),
{
    let path = root + seq![0x2fu8] + joined(components);
    assert forall|k: int| 0 <= k < root.len() implies !is_separator(#[trigger] path[k]) by {
        assert(path[k] == root[k]);
    }
    assert(path[root.len() as int] == 0x2fu8);
    lemma_segment_end_is(path, 0, root.len() as int);
    lemma_components_of_joined(root + seq![0x2fu8], components);
}

/// Finds where the segment that begins at `from` ends.
fn find_segment_end(path: &[u8], from: usize) -> (end: usize)
    requires
        from <= path@.len(),
    ensures
        end == segment_end(path@, from as int),
        from <= end <= path@.len(),
{
    let mut end: usize = from;
    while end < path.len() && path[end] != 0x2f
        invariant
            from <= end <= path@.len(),
            segment_end(path@, from as int) == segment_end(path@, end as int),
        decreases path@.len() - end,
    {
        end += 1;
    }
    end
}

/// Removes the first component of the path `path` of an archive entry and
/// brings the rest into plain form.
pub fn strip_root(path: &[u8]) -> (key: Vec<u8>)
    ensures
        key@ == stripped(path@),
{
    let mut key: Vec<u8> = Vec::new();
    let n: usize = path.len();
    let first_end: usize = find_segment_end(path, 0);
    if first_end >= n {
        assert(components_from(path@, first_end + 1) =~= Seq::<Seq<u8>>::empty());
        return key;
    }
    let mut from: usize = first_end + 1;
    let ghost start = from as int;
    let ghost done: Seq<Seq<u8>> = Seq::empty();
    let mut finished = false;
    while !finished
        invariant
            n == path@.len(),
            0 <= start <= from <= n,
            key@ == joined(done),
            finished ==> done == components_from(path@, start),
            !finished ==> done + components_from(path@, from as int) == components_from(
                path@,
                start,
            ),
            forall|k: int| 0 <= k < done.len() ==> (#[trigger] done[k]).len() > 0,
        decreases n - from + (if finished { 0int } else { 1int }),
    {
        let end: usize = find_segment_end(path, from);
        let ghost segment = path@.subrange(from as int, end as int);
        let single_dot = end - from == 1 && path[from] == 0x2e;
        proof {
            if single_dot {
                assert(segment =~= seq![0x2eu8]);
            } else if segment.len() == 1 {
                assert(segment[0] != 0x2eu8);
            }
        }
        if end > from && !single_dot {
            assert(is_component(segment));
            if key.len() > 0 {
                key.push(0x2f);
            }
            let mut k: usize = from;
            let ghost before = key@;
            while k < end
                invariant
                    from <= k <= end <= path@.len(),
                    key@ == before + path@.subrange(from as int, k as int),
                decreases end - k,
            {
                key.push(path[k]);
                k += 1;
                assert(key@ =~= before + path@.subrange(from as int, k as int));
            }
            proof {
                let grown = done.push(segment);
                assert(grown.drop_last() =~= done);
                assert(grown.last() == segment);
                if done.len() == 0 {
                    assert(key@ =~= segment);
                } else {
                    lemma_joined_nonempty(done);
                }
                assert(key@ =~= joined(grown));
                done = grown;
            }
        }
        proof {
            let rest = if end < n {
                components_from(path@, end + 1)
            } else {
                Seq::<Seq<u8>>::empty()
            };
            if end >= n {
                assert(components_from(path@, end + 1) =~= Seq::<Seq<u8>>::empty());
            }
            assert(components_from(path@, from as int) =~= if is_component(segment) {
                seq![segment] + components_from(path@, end + 1)
            } else {
                components_from(path@, end + 1)
            });
            assert(done + components_from(path@, end + 1) =~= components_from(path@, start));
        }
        if end >= n {
            finished = true;
            proof {
                assert(components_from(path@, end + 1) =~= Seq::<Seq<u8>>::empty());
                assert(done =~= done + components_from(path@, end + 1));
            }
        } else {
            from = end + 1;
        }
    }
    key
}

/// Components that are not empty join to bytes that are not empty.
pub proof fn lemma_joined_nonempty(components: Seq<Seq<u8>>)
    requires
        components.len() > 0,
        forall|k: int| 0 <= k < components.len() ==> (#[trigger] components[k]).len() > 0,
    ensures
        joined(components).len() > 0,
    decreases components.len(),
{
    if components.len() > 1 {
        lemma_joined_nonempty(components.drop_last());
    }
}

/// Calls `String::from_utf8`. Trusted: it yields a string exactly where the
/// bytes are well-formed UTF-8, and the string is what the bytes decode to.
#[verifier::external_body]
fn string_from_utf8(bytes: Vec<u8>) -> (text: Option<String>)
    ensures
        text is Some <==> valid_utf8(bytes@),
        text matches Some(s) ==> s@ == decode_utf8(bytes@),
{
    String::from_utf8(bytes).ok()
}

/// The key under which the file recorded at `path` is indexed, if the path
/// without its first component is well-formed UTF-8.
pub open spec fn index_key(path: Seq<u8>) -> Option<Seq<char>> {
    if valid_utf8(stripped(path)) {
        Some(decode_utf8(stripped(path)))
    } else {
        None
    }
}

/// Gives the key under which the file recorded at `path` is indexed.
pub fn entry_key(path: &[u8]) -> (key: Option<String>)
    ensures
        key.deep_view() == index_key(path@),
{
    string_from_utf8(strip_root(path))
}

} // verus!
