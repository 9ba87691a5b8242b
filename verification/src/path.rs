//! Unix paths as the bytes they are made of.
//!
//! A path is a byte sequence without further structure; its components are the
//! names between slashes. Nothing here looks at a filesystem.

use vstd::prelude::*;

verus! {

/// The separator between components.
pub const SLASH: u8 = 47;

/// The byte of the component that names the current directory.
pub const DOT: u8 = 46;

/// True if the path starts at the root.
pub open spec fn absolute(path: Seq<u8>) -> bool {
    path.len() > 0 && path[0] == SLASH
}

/// `tail` as seen from `base`: itself if it is absolute, else `base` and `tail`
/// with one separator between them unless `base` is empty or brings its own.
pub open spec fn joined(base: Seq<u8>, tail: Seq<u8>) -> Seq<u8> {
    if absolute(tail) {
        tail
    } else if base.len() > 0 && base.last() != SLASH {
        base.push(SLASH) + tail
    } else {
        base + tail
    }
}

/// The components before the last separator, and the bytes after it.
pub struct Scan {
    pub done: Seq<Seq<u8>>,
    pub rest: Seq<u8>,
}

/// The components once the bytes in hand are known to be complete. Empty names
/// vanish, and so does a single dot that is not the path's first component.
pub open spec fn flushed(scan: Scan) -> Seq<Seq<u8>> {
    if scan.rest.len() == 0 || (scan.rest == seq![DOT] && scan.done.len() > 0) {
        scan.done
    } else {
        scan.done.push(scan.rest)
    }
}

/// Reads a path from left to right.
pub open spec fn scanned(path: Seq<u8>) -> Scan
    decreases path.len(),
{
    if path.len() == 0 {
        Scan { done: seq![], rest: seq![] }
    } else {
        let before = scanned(path.drop_last());
        if path.last() != SLASH {
            Scan { done: before.done, rest: before.rest.push(path.last()) }
        } else if path.len() == 1 {
            Scan { done: seq![seq![SLASH]], rest: seq![] }
        } else {
            Scan { done: flushed(before), rest: seq![] }
        }
    }
}

/// The components of a path, the root (a slash) first if it is absolute.
pub open spec fn components(path: Seq<u8>) -> Seq<Seq<u8>> {
    flushed(scanned(path))
}

/// True if `path` is `base` or lies below it, component by component.
pub open spec fn within(path: Seq<u8>, base: Seq<u8>) -> bool {
    components(base).is_prefix_of(components(path))
}

/// `dir` is the parent of `path`: the shortest beginning of `path` that has all
/// its components but the last.
pub open spec fn is_parent(dir: Seq<u8>, path: Seq<u8>) -> bool {
    &&& has_parent(path)
    &&& dir.is_prefix_of(path)
    &&& components(dir) == components(path).drop_last()
    &&& forall|k: int|
        0 <= k < dir.len() ==> #[trigger] components(path.take(k)) != components(path).drop_last()
}

/// True if the path has a last component that is not the root.
pub open spec fn has_parent(path: Seq<u8>) -> bool {
    components(path).len() > 0 && components(path).last() != seq![SLASH]
}

/// The parent of a path.
pub open spec fn parent_of(path: Seq<u8>) -> Option<Seq<u8>> {
    if has_parent(path) {
        Some(choose|dir: Seq<u8>| is_parent(dir, path))
    } else {
        None
    }
}

/// Copies a path.
pub fn path_copy(path: &[u8]) -> (res: Vec<u8>)
    ensures
        res@ == path@,
{
    vstd::slice::slice_to_vec(path)
}

/// True if the path starts at the root.
pub fn is_absolute(path: &[u8]) -> (res: bool)
    ensures
        res == absolute(path@),
{
    path.len() > 0 && path[0] == SLASH
}

/// Appends `tail` to `base`, or replaces it if `tail` is absolute.
pub fn join(base: &[u8], tail: &[u8]) -> (res: Vec<u8>)
    ensures
        res@ == joined(base@, tail@),
{
    if is_absolute(tail) {
        return path_copy(tail);
    }
    let mut res = path_copy(base);
    if base.len() > 0 && base[base.len() - 1] != SLASH {
        res.push(SLASH);
    }
    let mut rest = path_copy(tail);
    res.append(&mut rest);
    res
}

/// Byte-wise equality.
pub fn same_bytes(a: &[u8], b: &[u8]) -> (res: bool)
    ensures
        res == (a@ == b@),
{
    if a.len() != b.len() {
        return false;
    }
    let mut i: usize = 0;
    while i < a.len()
        invariant
            i <= a.len(),
            a.len() == b.len(),
            forall|j: int| 0 <= j < i ==> a@[j] == b@[j],
        decreases a.len() - i,
    {
        if a[i] != b[i] {
            return false;
        }
        i += 1;
    }
    assert(a@ =~= b@);
    true
}

/// The bytes of each path of a list.
pub open spec fn path_list(v: Seq<Vec<u8>>) -> Seq<Seq<u8>> {
    Seq::new(v.len(), |i: int| v[i]@)
}

/// The bytes of a path, where there is one.
pub open spec fn opt_path(path: Option<Vec<u8>>) -> Option<Seq<u8>> {
    match path {
        Some(path) => Some(path@),
        None => None,
    }
}

/// The components found so far, and where in the path each one ends.
struct Found {
    parts: Vec<Vec<u8>>,
    ends: Vec<usize>,
}

/// The components of `path` are `parts`; `ends[i]` is the length of the
/// shortest beginning of `path` whose components are the first `i + 1`.
spec fn found_in(path: Seq<u8>, parts: Seq<Seq<u8>>, ends: Seq<usize>) -> bool {
    &&& ends.len() == parts.len()
    &&& forall|i: int| 0 <= i < ends.len() ==> #[trigger] end_of(path, parts, i, ends[i] as int)
}

spec fn end_of(path: Seq<u8>, parts: Seq<Seq<u8>>, i: int, end: int) -> bool {
    &&& 0 <= end <= path.len()
    &&& components(path.take(end)) == parts.take(i + 1)
    &&& forall|k: int| 0 <= k < end ==> #[trigger] components(path.take(k)) != parts.take(i + 1)
}

proof fn lemma_scan_step(path: Seq<u8>, i: int)
    requires
        0 <= i < path.len(),
    ensures
        path.take(i + 1).drop_last() == path.take(i),
        path.take(i + 1).last() == path[i],
        path[i] != SLASH ==> scanned(path.take(i + 1)) == (Scan {
            done: scanned(path.take(i)).done,
            rest: scanned(path.take(i)).rest.push(path[i]),
        }),
        path[i] == SLASH && i == 0 ==> scanned(path.take(i + 1)) == (Scan {
            done: seq![seq![SLASH]],
            rest: seq![],
        }),
        path[i] == SLASH && i > 0 ==> scanned(path.take(i + 1)) == (Scan {
            done: flushed(scanned(path.take(i))),
            rest: seq![],
        }),
{
    assert(path.take(i + 1).drop_last() =~= path.take(i));
}

/// While the bytes of the component in hand are read, what comes before it
/// stays the same, and the name in hand is what has been read of it.
proof fn lemma_in_hand(path: Seq<u8>, i: int, k: int)
    requires
        0 <= k <= i <= path.len(),
        i - scanned(path.take(i)).rest.len() <= k,
    ensures
        scanned(path.take(k)).done == scanned(path.take(i)).done,
        scanned(path.take(k)).rest.len() == scanned(path.take(i)).rest.len() - (i - k),
    decreases i - k,
{
    if k < i {
        lemma_scan_step(path, i - 1);
        lemma_in_hand(path, i - 1, k);
    }
}

/// Before the component in hand begins, there are no more components than
/// those that are complete.
proof fn lemma_count(path: Seq<u8>, i: int, k: int)
    requires
        0 <= k <= i <= path.len(),
        k <= i - scanned(path.take(i)).rest.len(),
    ensures
        components(path.take(k)).len() <= scanned(path.take(i)).done.len(),
    decreases i,
{
    if i == 0 {
        assert(path.take(0) =~= Seq::<u8>::empty());
    } else {
        lemma_scan_step(path, i - 1);
        let before = scanned(path.take(i - 1));
        if k < i {
            if k <= (i - 1) - before.rest.len() {
                lemma_count(path, i - 1, k);
            } else {
                lemma_in_hand(path, i - 1, k);
                if i == 1 {
                    assert(path.take(0) =~= Seq::<u8>::empty());
                }
            }
        }
    }
}

/// A component ends where its last byte has been read, and not before.
proof fn lemma_component_end(path: Seq<u8>, i: int)
    requires
        0 <= i <= path.len(),
        flushed(scanned(path.take(i))) != scanned(path.take(i)).done,
    ensures
        forall|k: int|
            0 <= k < i ==> #[trigger] components(path.take(k)) != components(path.take(i)),
{
    let scan = scanned(path.take(i));
    assert forall|k: int| 0 <= k < i implies #[trigger] components(path.take(k)) != components(
        path.take(i),
    ) by {
        if k <= i - scan.rest.len() {
            lemma_count(path, i, k);
        } else {
            lemma_in_hand(path, i, k);
            let earlier = scanned(path.take(k));
            assert(components(path.take(i)).last().len() == scan.rest.len());
        }
    }
}

fn find_components(path: &[u8]) -> (res: Found)
    ensures
        path_list(res.parts@) == components(path@),
        found_in(path@, components(path@), res.ends@),
{
    let mut parts: Vec<Vec<u8>> = Vec::new();
    let mut ends: Vec<usize> = Vec::new();
    let mut rest: Vec<u8> = Vec::new();
    let mut i: usize = 0;
    proof {
        assert(path@.take(0) =~= Seq::<u8>::empty());
        assert(path_list(parts@) =~= Seq::empty());
    }
    while i < path.len()
        invariant
            i <= path.len(),
            path_list(parts@) == scanned(path@.take(i as int)).done,
            rest@ == scanned(path@.take(i as int)).rest,
            found_in(path@, path_list(parts@), ends@),
        decreases path.len() - i,
    {
        let ghost before = scanned(path@.take(i as int));
        let ghost old_parts = path_list(parts@);
        proof {
            lemma_scan_step(path@, i as int);
        }
        let b = path[i];
        if b != SLASH {
            rest.push(b);
        } else if i == 0 {
            let mut root: Vec<u8> = Vec::new();
            root.push(SLASH);
            parts.push(root);
            ends.push(1);
            proof {
                assert(root@ =~= seq![SLASH]);
                assert(path@.take(0) =~= Seq::<u8>::empty());
                assert(old_parts =~= Seq::empty());
                assert(path_list(parts@) =~= seq![seq![SLASH]]);
                assert(path_list(parts@).take(1) =~= path_list(parts@));
                assert(end_of(path@, path_list(parts@), 0, 1));
            }
        } else {
            let dot = rest.len() == 1 && rest[0] == DOT;
            assert(dot == (rest@ == seq![DOT])) by {
                if dot {
                    assert(rest@ =~= seq![DOT]);
                }
            }
            if !(rest.len() == 0 || (dot && parts.len() > 0)) {
                let ghost name = rest@;
                parts.push(rest);
                ends.push(i);
                proof {
                    lemma_component_end(path@, i as int);
                    assert(path_list(parts@) =~= old_parts.push(name));
                    lemma_found_push(path@, old_parts, name, ends@.drop_last(), i);
                    assert(ends@ =~= ends@.drop_last().push(i));
                }
            }
            rest = Vec::new();
            proof {
                assert(path_list(parts@) =~= flushed(before));
            }
        }
        i += 1;
    }
    assert(path@.take(i as int) =~= path@);
    let dot = rest.len() == 1 && rest[0] == DOT;
    assert(dot == (rest@ == seq![DOT])) by {
        if dot {
            assert(rest@ =~= seq![DOT]);
        }
    }
    if !(rest.len() == 0 || (dot && parts.len() > 0)) {
        let ghost old_parts = path_list(parts@);
        let ghost name = rest@;
        parts.push(rest);
        ends.push(i);
        proof {
            lemma_component_end(path@, i as int);
            assert(path_list(parts@) =~= old_parts.push(name));
            lemma_found_push(path@, old_parts, name, ends@.drop_last(), i);
            assert(ends@ =~= ends@.drop_last().push(i));
        }
    }
    Found { parts, ends }
}

proof fn lemma_found_push(
    path: Seq<u8>,
    parts: Seq<Seq<u8>>,
    name: Seq<u8>,
    ends: Seq<usize>,
    end: usize,
)
    requires
        found_in(path, parts, ends),
        end <= path.len(),
        components(path.take(end as int)) == parts.push(name),
        forall|k: int|
            0 <= k < end ==> #[trigger] components(path.take(k)) != components(
                path.take(end as int),
            ),
    ensures
        found_in(path, parts.push(name), ends.push(end)),
{
    let more = parts.push(name);
    let more_ends = ends.push(end);
    assert forall|i: int| 0 <= i < more_ends.len() implies #[trigger] end_of(
        path,
        more,
        i,
        more_ends[i] as int,
    ) by {
        if i < ends.len() {
            assert(end_of(path, parts, i, ends[i] as int));
            assert(more.take(i + 1) =~= parts.take(i + 1));
        } else {
            assert(more.take(i + 1) =~= more);
        }
    }
}

/// True if `path` is `base` or lies below it, component by component.
pub fn starts_with(path: &[u8], base: &[u8]) -> (res: bool)
    ensures
        res == within(path@, base@),
{
    let long = find_components(path).parts;
    let short = find_components(base).parts;
    let ghost a = components(path@);
    let ghost b = components(base@);
    if short.len() > long.len() {
        return false;
    }
    let mut i: usize = 0;
    while i < short.len()
        invariant
            i <= short.len() <= long.len(),
            path_list(long@) == a,
            path_list(short@) == b,
            a == components(path@),
            b == components(base@),
            forall|j: int| 0 <= j < i ==> a[j] == b[j],
        decreases short.len() - i,
    {
        if !same_bytes(long[i].as_slice(), short[i].as_slice()) {
            assert(a[i as int] == path_list(long@)[i as int]);
            assert(b[i as int] == path_list(short@)[i as int]);
            assert(a.subrange(0, b.len() as int)[i as int] != b[i as int]);
            return false;
        }
        assert(a[i as int] == path_list(long@)[i as int]);
        assert(b[i as int] == path_list(short@)[i as int]);
        i += 1;
    }
    assert(a.subrange(0, b.len() as int) =~= b);
    true
}

/// The path without its last component, if that is not the root.
pub fn parent(path: &[u8]) -> (res: Option<Vec<u8>>)
    ensures
        match res {
            Some(dir) => is_parent(dir@, path@) && parent_of(path@) == Some(dir@),
            None => parent_of(path@) is None,
        },
{
    let found = find_components(path);
    let n = found.parts.len();
    let ghost parts = components(path@);
    if n == 0 {
        return None;
    }
    let last = &found.parts[n - 1];
    assert(last@ == path_list(found.parts@)[n - 1]);
    if last.len() == 1 && last[0] == SLASH {
        assert(last@ =~= seq![SLASH]);
        return None;
    }
    assert(last@ != seq![SLASH]);
    if n == 1 {
        let dir: Vec<u8> = Vec::new();
        proof {
            assert(dir@.is_prefix_of(path@)) by {
                assert(path@.subrange(0, 0) =~= dir@);
            }
            assert(components(dir@) =~= parts.drop_last());
            lemma_parent_of(dir@, path@);
        }
        return Some(dir);
    }
    let end = found.ends[n - 2];
    proof {
        assert(end_of(path@, parts, n - 2, end as int));
        assert(parts.take(n - 1) =~= parts.drop_last());
    }
    let dir = path_copy(vstd::slice::slice_subrange(path, 0, end));
    proof {
        assert(dir@ =~= path@.take(end as int));
        lemma_parent_of(dir@, path@);
    }
    Some(dir)
}

proof fn lemma_parent_of(dir: Seq<u8>, path: Seq<u8>)
    requires
        is_parent(dir, path),
    ensures
        parent_of(path) == Some(dir),
{
    law_parent_is_unique(dir, choose|d: Seq<u8>| is_parent(d, path), path);
}

// ---------------------------------------------------------------------------
// Laws
// ---------------------------------------------------------------------------

/// What is complete stays complete as more bytes are read.
proof fn lemma_done_grows(path: Seq<u8>, more: Seq<u8>)
    requires
        path.len() > 0,
    ensures
        scanned(path).done.is_prefix_of(scanned(path + more).done),
    decreases more.len(),
{
    let done = scanned(path).done;
    if more.len() == 0 {
        assert(path + more =~= path);
        assert(done.subrange(0, done.len() as int) =~= done);
    } else {
        let less = path + more.drop_last();
        assert((path + more).drop_last() =~= less);
        lemma_done_grows(path, more.drop_last());
        let mid = scanned(less).done;
        let end = scanned(path + more).done;
        assert(end.subrange(0, done.len() as int) =~= mid.subrange(0, done.len() as int));
    }
}

/// A relative path joined to a base lies within that base.
pub proof fn law_join_stays_within(base: Seq<u8>, tail: Seq<u8>)
    requires
        !absolute(tail),
    ensures
        within(joined(base, tail), base),
{
    if base.len() == 0 {
        assert(components(base) =~= seq![]);
        assert(components(joined(base, tail)).subrange(0, 0) =~= components(base));
    } else {
        let dir = if base.last() != SLASH {
            base.push(SLASH)
        } else {
            base
        };
        assert(joined(base, tail) =~= dir + tail);
        if base.last() != SLASH {
            assert(dir.drop_last() =~= base);
        }
        assert(scanned(dir).done == components(base));
        lemma_done_grows(dir, tail);
        let all = components(dir + tail);
        let n = components(base).len() as int;
        assert(all.subrange(0, n) =~= scanned(dir + tail).done.subrange(0, n));
    }
}

/// Every absolute path lies within the root.
pub proof fn law_within_root(path: Seq<u8>)
    requires
        absolute(path),
    ensures
        within(path, seq![SLASH]),
{
    let root = seq![SLASH];
    let rest = path.skip(1);
    assert(path =~= root + rest);
    assert(root.drop_last() =~= seq![]);
    assert(components(root) =~= seq![root]);
    lemma_done_grows(root, rest);
    assert(components(path).subrange(0, 1) =~= scanned(path).done.subrange(0, 1));
}

/// Lying within is transitive.
pub proof fn law_within_is_transitive(a: Seq<u8>, b: Seq<u8>, c: Seq<u8>)
    requires
        within(a, b),
        within(b, c),
    ensures
        within(a, c),
{
    let (x, y, z) = (components(a), components(b), components(c));
    assert(x.subrange(0, z.len() as int) =~= y.subrange(0, z.len() as int));
}

/// A path has one parent at most.
pub proof fn law_parent_is_unique(a: Seq<u8>, b: Seq<u8>, path: Seq<u8>)
    requires
        is_parent(a, path),
        is_parent(b, path),
    ensures
        a == b,
{
    assert(a =~= path.take(a.len() as int));
    assert(b =~= path.take(b.len() as int));
}

/// A path lies within its parent.
pub proof fn law_within_parent(dir: Seq<u8>, path: Seq<u8>)
    requires
        is_parent(dir, path),
    ensures
        within(path, dir),
{
    let all = components(path);
    assert(all.subrange(0, all.len() - 1) =~= all.drop_last());
}

/// A path is absolute if its first byte is a slash.
pub proof fn law_absolute(path: Seq<u8>, b: u8)
    ensures
        absolute(seq![b] + path) <==> b == 47,
        !absolute(seq![]),
{
}

/// Joining to an absolute path gives that path; a relative one is put behind
/// the base, with one slash between them where the base has none.
pub proof fn law_joining(base: Seq<u8>, tail: Seq<u8>)
    ensures
        joined(base, seq![47u8] + tail) == seq![47u8] + tail,
        tail.len() == 0 || tail[0] != 47 ==> {
            &&& joined(seq![], tail) == tail
            &&& joined(base.push(47), tail) == base.push(47) + tail
            &&& base.len() > 0 && base.last() != 47 ==> joined(base, tail) == base + seq![47u8]
                + tail
        },
{
    assert((seq![47u8] + tail)[0] == 47);
    assert(Seq::<u8>::empty() + tail =~= tail);
    if base.len() > 0 && base.last() != 47 {
        assert(base.push(47) + tail =~= base + seq![47u8] + tail);
    }
}

/// No slash occurs in a name.
pub open spec fn slashless(name: Seq<u8>) -> bool {
    forall|i: int| 0 <= i < name.len() ==> #[trigger] name[i] != 47
}

proof fn lemma_scan_name(path: Seq<u8>, name: Seq<u8>)
    requires
        slashless(name),
    ensures
        scanned(path + name).done == scanned(path).done,
        scanned(path + name).rest == scanned(path).rest + name,
    decreases name.len(),
{
    if name.len() == 0 {
        assert(path + name =~= path);
        assert(scanned(path).rest + name =~= scanned(path).rest);
    } else {
        let less = name.drop_last();
        assert forall|i: int| 0 <= i < less.len() implies #[trigger] less[i] != 47 by {
            assert(less[i] == name[i]);
        }
        lemma_scan_name(path, less);
        assert((path + name).drop_last() =~= path + less);
        assert((path + name).last() == name[name.len() - 1]);
        assert(scanned(path).rest + name =~= (scanned(path).rest + less).push(name.last()));
    }
}

proof fn lemma_some_component(path: Seq<u8>)
    requires
        path.len() > 0,
    ensures
        components(path).len() > 0,
        scanned(path).rest.len() > 0 || scanned(path).done.len() > 0,
    decreases path.len(),
{
    if path.len() > 1 {
        lemma_some_component(path.drop_last());
    }
}

/// The components of a path are those before its last slash, and then the name
/// behind it; an empty name and a dot add nothing. The root is a component of
/// its own, and a path without a slash is its only component.
pub proof fn law_components(path: Seq<u8>, name: Seq<u8>)
    requires
        slashless(name),
    ensures
        components(seq![]).len() == 0,
        name.len() > 0 ==> components(name) == seq![name],
        name.len() == 0 || name == seq![46u8] ==> components(seq![47u8] + name) == seq![
            seq![47u8],
        ],
        name.len() > 0 && name != seq![46u8] ==> components(seq![47u8] + name) == seq![
            seq![47u8],
            name,
        ],
        path.len() > 0 && (name.len() == 0 || name == seq![46u8]) ==> components(
            path + seq![47u8] + name,
        ) == components(path),
        path.len() > 0 && name.len() > 0 && name != seq![46u8] ==> components(
            path + seq![47u8] + name,
        ) == components(path).push(name),
{
    let root = seq![47u8];
    assert(components(seq![]) =~= seq![]);
    lemma_scan_name(seq![], name);
    assert(Seq::<u8>::empty() + name =~= name);
    if name.len() > 0 {
        assert(components(name) =~= seq![name]);
    }
    assert(root.drop_last() =~= seq![]);
    assert(scanned(root).done == seq![root] && scanned(root).rest =~= seq![]);
    lemma_scan_name(root, name);
    assert(scanned(root).rest + name =~= name);
    if name.len() > 0 && name != seq![46u8] {
        assert(components(root + name) =~= seq![root, name]);
    }
    if path.len() > 0 {
        let dir = path + root;
        lemma_some_component(path);
        assert(dir.drop_last() =~= path);
        assert(scanned(dir).done == components(path) && scanned(dir).rest =~= seq![]);
        lemma_scan_name(dir, name);
        assert(scanned(dir).rest + name =~= name);
    }
}

/// A path lies within another if it has all its components, at the same places.
pub proof fn law_within_by_components(path: Seq<u8>, base: Seq<u8>)
    ensures
        within(path, base) <==> components(base).len() <= components(path).len() && forall|i: int|
            0 <= i < components(base).len() ==> #[trigger] components(base)[i] == components(
                path,
            )[i],
{
    let (a, b) = (components(path), components(base));
    if within(path, base) {
        assert forall|i: int| 0 <= i < b.len() implies #[trigger] b[i] == a[i] by {
            assert(a.subrange(0, b.len() as int)[i] == b[i]);
        }
    } else if b.len() <= a.len() && (forall|i: int|
        0 <= i < b.len() ==> #[trigger] b[i] == a[i]) {
        assert(a.subrange(0, b.len() as int) =~= b);
    }
}

/// What is put below a path lies within it, and it does not lie within what was
/// put below it.
pub proof fn law_below_is_within(path: Seq<u8>, name: Seq<u8>)
    requires
        path.len() > 0,
        slashless(name),
        name.len() > 0,
        name != seq![46u8],
    ensures
        within(path + seq![47u8] + name, path),
        !within(path, path + seq![47u8] + name),
{
    law_components(path, name);
    law_within_by_components(path + seq![47u8] + name, path);
    law_within_by_components(path, path + seq![47u8] + name);
}

/// The parent of a name in a directory is that directory; that of a name in the
/// root is the root; that of a bare name is the empty path. The root and the
/// empty path have none.
pub proof fn law_parents(dir: Seq<u8>, name: Seq<u8>)
    requires
        slashless(name),
        name.len() > 0,
        name != seq![46u8],
        dir.len() > 0,
        dir.last() != 47,
        dir.len() > 1 && dir.last() == 46 ==> dir[dir.len() - 2] != 47,
    ensures
        parent_of(dir + seq![47u8] + name) == Some(dir),
        parent_of(seq![47u8] + name) == Some(seq![47u8]),
        parent_of(name) == Some(Seq::<u8>::empty()),
        parent_of(seq![47u8]) is None,
        parent_of(seq![]) is None,
{
    let root = seq![47u8];
    law_components(dir, name);
    law_components(dir, seq![]);
    assert(name != root) by {
        if name == root {
            assert(name[0] == 47);
        }
    }
    // Below a directory.
    let path = dir + root + name;
    assert(components(path).drop_last() =~= components(dir));
    assert(path.subrange(0, dir.len() as int) =~= dir);
    lemma_ends_in_name(dir);
    assert(path.take(dir.len() as int) =~= dir);
    lemma_component_end(path, dir.len() as int);
    assert forall|k: int| 0 <= k < dir.len() implies #[trigger] components(path.take(k))
        != components(path).drop_last() by {
        assert(components(path.take(k)) != components(path.take(dir.len() as int)));
    }
    lemma_parent_of(dir, path);
    // Below the root.
    let path = root + name;
    assert(components(path).drop_last() =~= seq![root]);
    assert(root + Seq::<u8>::empty() =~= root);
    assert(path.subrange(0, 1) =~= root);
    assert forall|k: int| 0 <= k < 1 implies #[trigger] components(path.take(k)) != components(
        path,
    ).drop_last() by {
        assert(path.take(0) =~= seq![]);
        assert(components(path.take(0)).len() == 0);
    }
    lemma_parent_of(root, path);
    // A bare name.
    let empty = Seq::<u8>::empty();
    assert(components(name).drop_last() =~= seq![]);
    assert(components(empty) =~= seq![]);
    assert(name.subrange(0, 0) =~= empty);
    lemma_parent_of(empty, name);
}

/// A path that ends neither in a slash nor in a dot of its own ends in a
/// component.
proof fn lemma_ends_in_name(path: Seq<u8>)
    requires
        path.len() > 0,
        path.last() != 47,
        path.len() > 1 && path.last() == 46 ==> path[path.len() - 2] != 47,
    ensures
        flushed(scanned(path)) != scanned(path).done,
{
    let before = path.drop_last();
    let scan = scanned(path);
    assert(scan.rest == scanned(before).rest.push(path.last()));
    if scan.rest == seq![DOT] && scan.done.len() > 0 {
        assert(scan.rest.last() == path.last());
        assert(scanned(before).rest.len() == scan.rest.len() - 1);
        assert(before.len() > 0);
        assert(before.last() == path[path.len() - 2]);
        lemma_rest_grows(before);
        assert(false);
    }
    assert(flushed(scan).len() == scan.done.len() + 1);
}

proof fn lemma_rest_grows(path: Seq<u8>)
    requires
        path.len() > 0,
    ensures
        path.last() != 47 ==> scanned(path).rest.len() > 0,
{
}

/// A list of paths shows each of them, in order.
pub proof fn law_path_list(v: Seq<Vec<u8>>, path: Vec<u8>)
    ensures
        opt_path(Some(path)) == Some(path@),
        opt_path(None) is None,
        path_list(v).len() == v.len(),
        forall|i: int| 0 <= i < v.len() ==> #[trigger] path_list(v)[i] == v[i]@,
{
}

/// A slash at the end of a path does not change its parent.
pub proof fn law_parent_of_a_directory(dir: Seq<u8>, path: Seq<u8>)
    requires
        path.len() > 0,
        is_parent(dir, path),
    ensures
        parent_of(path) == Some(dir),
        parent_of(path + seq![47u8]) == Some(dir),
{
    let longer = path + seq![47u8];
    let name = Seq::<u8>::empty();
    law_components(path, name);
    assert(longer + name =~= longer);
    assert(longer.take(dir.len() as int) =~= path.take(dir.len() as int));
    assert(longer.subrange(0, dir.len() as int) =~= path.subrange(0, dir.len() as int));
    assert forall|k: int| 0 <= k < dir.len() implies #[trigger] components(longer.take(k))
        != components(longer).drop_last() by {
        assert(longer.take(k) =~= path.take(k));
    }
    assert(is_parent(dir, longer));
    lemma_parent_of(dir, path);
    lemma_parent_of(dir, longer);
}

} // verus!
