//! SSC paths: `/` followed by components separated by `/`.
use vstd::prelude::*;
use vstd::string::*;

use crate::error::SscError;

verus! {

/// A path is valid when it starts with `/`.
pub open spec fn is_ssc_path(p: Seq<char>) -> bool {
    p.len() > 0 && p[0] == '/'
}

/// The root path `/`, which stands for the whole tree of a device.
pub open spec fn is_root_path(p: Seq<char>) -> bool {
    p =~= seq!['/']
}

/// The pieces of `s` between the occurrences of `/`, as `str::split("/")`
/// yields them: one more piece than there are slashes, empty pieces included.
pub open spec fn split_slash(s: Seq<char>) -> Seq<Seq<char>>
    decreases s.len(),
{
    if s.len() == 0 {
        seq![Seq::<char>::empty()]
    } else {
        let init = split_slash(s.drop_last());
        if s.last() == '/' {
            init.push(Seq::<char>::empty())
        } else {
            init.update(init.len() - 1, init.last().push(s.last()))
        }
    }
}

/// The components of a valid path: the pieces of what follows the leading `/`.
pub open spec fn path_keys(p: Seq<char>) -> Seq<Seq<char>> {
    split_slash(p.drop_first())
}

/// The path of the entry `key` below the path `p`.
pub open spec fn child_path(p: Seq<char>, key: Seq<char>) -> Seq<char> {
    if is_root_path(p) {
        seq!['/'] + key
    } else {
        p + seq!['/'] + key
    }
}

/// The views of a sequence of string slices.
pub open spec fn str_views(parts: Seq<&str>) -> Seq<Seq<char>> {
    parts.map_values(|part: &str| part@)
}

pub proof fn lemma_split_slash_nonempty(s: Seq<char>)
    ensures
        split_slash(s).len() >= 1,
    decreases s.len(),
{
    if s.len() > 0 {
        lemma_split_slash_nonempty(s.drop_last());
    }
}

/// Whether a text holds no `/`.
pub open spec fn has_no_slash(k: Seq<char>) -> bool {
    forall|i: int| 0 <= i < k.len() ==> k[i] != '/'
}

/// Text without `/` appended to `a` extends the last piece of `a`.
pub proof fn lemma_split_plain_suffix(a: Seq<char>, k: Seq<char>)
    requires
        has_no_slash(k),
    ensures
        split_slash(a + k) == split_slash(a).update(
            split_slash(a).len() - 1,
            split_slash(a).last() + k,
        ),
    decreases k.len(),
{
    lemma_split_slash_nonempty(a);
    if k.len() == 0 {
        assert(a + k =~= a);
        assert(split_slash(a).last() + k =~= split_slash(a).last());
        assert(split_slash(a).update(split_slash(a).len() - 1, split_slash(a).last())
            =~= split_slash(a));
    } else {
        let k1 = k.drop_last();
        assert(has_no_slash(k1));
        lemma_split_plain_suffix(a, k1);
        assert((a + k).drop_last() =~= a + k1);
        assert((a + k).last() == k.last());
        assert((split_slash(a).last() + k1).push(k.last()) =~= split_slash(a).last() + k);
        assert(split_slash(a + k) =~= split_slash(a).update(
            split_slash(a).len() - 1,
            split_slash(a).last() + k,
        ));
    }
}

/// A `/` followed by text without `/` adds exactly one piece.
pub proof fn lemma_split_slash_then_piece(a: Seq<char>, k: Seq<char>)
    requires
        has_no_slash(k),
    ensures
        split_slash(a + seq!['/'] + k) == split_slash(a).push(k),
{
    let a1 = a + seq!['/'];
    assert(a1.drop_last() =~= a);
    assert(a1.last() == '/');
    assert(split_slash(a1) == split_slash(a).push(Seq::<char>::empty()));
    lemma_split_plain_suffix(a1, k);
    assert(Seq::<char>::empty() + k =~= k);
    assert(split_slash(a1 + k) =~= split_slash(a).push(k));
    assert(a + seq!['/'] + k =~= a1 + k);
}

/// The components of the path of an entry are the components of its parent
/// path followed by the entry's key (the root path has none of its own).
pub proof fn lemma_child_path_keys(p: Seq<char>, k: Seq<char>)
    requires
        is_ssc_path(p),
        k.len() > 0,
        has_no_slash(k),
    ensures
        is_ssc_path(child_path(p, k)),
        !is_root_path(child_path(p, k)),
        is_root_path(p) ==> path_keys(child_path(p, k)) == seq![k],
        !is_root_path(p) ==> path_keys(child_path(p, k)) == path_keys(p).push(k),
{
    if is_root_path(p) {
        assert((seq!['/'] + k).drop_first() =~= Seq::<char>::empty() + k);
        lemma_split_plain_suffix(Seq::<char>::empty(), k);
        assert(split_slash(Seq::<char>::empty()) == seq![Seq::<char>::empty()]);
        assert(Seq::<char>::empty() + k =~= k);
        assert(path_keys(child_path(p, k)) =~= seq![k]);
        assert(child_path(p, k).len() >= 2);
    } else {
        assert((p + seq!['/'] + k).drop_first() =~= p.drop_first() + seq!['/'] + k);
        lemma_split_slash_then_piece(p.drop_first(), k);
        assert(child_path(p, k).len() >= 2);
    }
    assert(child_path(p, k)[0] == '/');
}

/// The pieces joined again, with `/` between neighbours.
pub open spec fn join_slash(parts: Seq<Seq<char>>) -> Seq<char>
    decreases parts.len(),
{
    if parts.len() == 0 {
        Seq::empty()
    } else if parts.len() == 1 {
        parts[0]
    } else {
        join_slash(parts.drop_last()) + seq!['/'] + parts.last()
    }
}

/// Splitting at `/` loses nothing: no piece holds a `/`, and joining the
/// pieces with `/` gives the text back.
pub proof fn lemma_split_join(s: Seq<char>)
    ensures
        join_slash(split_slash(s)) == s,
        forall|i: int| 0 <= i < split_slash(s).len() ==> has_no_slash(#[trigger] split_slash(s)[i]),
    decreases s.len(),
{
    if s.len() == 0 {
        assert(join_slash(split_slash(s)) =~= s);
    } else {
        let init = s.drop_last();
        let c = s.last();
        lemma_split_join(init);
        lemma_split_slash_nonempty(init);
        let parts = split_slash(init);
        let n: nat = parts.len();
        if c == '/' {
            let now = parts.push(Seq::<char>::empty());
            assert(now.drop_last() =~= parts);
            assert(join_slash(now) =~= s);
            assert forall|i: int| 0 <= i < now.len() implies has_no_slash(#[trigger] now[i]) by {
                if i < n {
                    assert(now[i] == parts[i]);
                }
            }
        } else {
            let last = parts.last().push(c);
            let now = parts.update(n - 1, last);
            assert forall|i: int| 0 <= i < now.len() implies has_no_slash(#[trigger] now[i]) by {
                if i < n - 1 {
                    assert(now[i] == parts[i]);
                } else {
                    assert(has_no_slash(parts[n - 1]));
                }
            }
            if n == 1 {
                assert(s =~= init.push(c));
                assert(join_slash(now) =~= s);
            } else {
                assert(now.drop_last() =~= parts.drop_last());
                assert(join_slash(now) =~= join_slash(parts.drop_last()) + seq!['/'] + last);
                assert(join_slash(parts) == join_slash(parts.drop_last()) + seq!['/'] + parts.last());
                assert(s =~= init.push(c));
                assert((join_slash(parts.drop_last()) + seq!['/'] + parts.last()).push(c)
                    =~= join_slash(parts.drop_last()) + seq!['/'] + last);
                assert(join_slash(now) =~= s);
            }
        }
    }
}

/// The components of a valid path hold no `/`, and `/` followed by the
/// components joined with `/` is the path itself.
pub proof fn law_path_components_rebuild_path(p: Seq<char>)
    requires
        is_ssc_path(p),
    ensures
        seq!['/'] + join_slash(path_keys(p)) == p,
        forall|i: int| 0 <= i < path_keys(p).len() ==> has_no_slash(#[trigger] path_keys(p)[i]),
{
    lemma_split_join(p.drop_first());
    assert(seq!['/'] + p.drop_first() =~= p);
}

/// Strips the leading `/` of a path.
///
/// A path that does not start with `/` is refused with `InvalidPath`.
pub fn normalize_path(path: &str) -> (r: Result<&str, SscError>)
    ensures
        is_ssc_path(path@) ==> (r matches Ok(rest) && rest@ == path@.drop_first()),
        !is_ssc_path(path@) ==> (r matches Err(SscError::InvalidPath)),
{
    let n: usize = path.unicode_len();
    if n > 0 && path.get_char(0) == '/' {
        Ok(path.substring_char(1, n))
    } else {
        Err(SscError::InvalidPath)
    }
}

/// Whether the path is the root path `/`.
pub fn is_root(path: &str) -> (b: bool)
    ensures
        b == is_root_path(path@),
{
    path.unicode_len() == 1 && path.get_char(0) == '/'
}

/// Splits `s` at every `/`, as `str::split("/")` does.
pub fn split_on_slash(s: &str) -> (parts: Vec<&str>)
    ensures
        str_views(parts@) == split_slash(s@),
{
    let n: usize = s.unicode_len();
    let mut parts: Vec<&str> = Vec::new();
    let mut start: usize = 0;
    let mut i: usize = 0;
    assert(s@.take(0) =~= Seq::<char>::empty());
    assert(str_views(parts@).push(s@.subrange(0, 0)) =~= split_slash(s@.take(0)));
    while i < n
        invariant
            n == s@.len(),
            start <= i <= n,
            str_views(parts@).push(s@.subrange(start as int, i as int)) == split_slash(
                s@.take(i as int),
            ),
        decreases n - i,
    {
        let c = s.get_char(i);
        let ghost before = str_views(parts@);
        assert(s@.take(i + 1).drop_last() =~= s@.take(i as int));
        assert(s@.take(i + 1).last() == c);
        if c == '/' {
            let piece = s.substring_char(start, i);
            parts.push(piece);
            assert(str_views(parts@) =~= before.push(piece@));
            assert(s@.subrange(i + 1, i + 1) =~= Seq::<char>::empty());
            start = i + 1;
        } else {
            assert(s@.subrange(start as int, i + 1) =~= s@.subrange(start as int, i as int).push(
                c,
            ));
        }
        i = i + 1;
    }
    let last = s.substring_char(start, n);
    let ghost before = str_views(parts@);
    parts.push(last);
    assert(str_views(parts@) =~= before.push(last@));
    assert(s@.take(n as int) =~= s@);
    parts
}

/// The components of a path, as the device reads them: the pieces between
/// the slashes that follow the leading `/`.
///
/// A path that does not start with `/` is refused with `InvalidPath`.
pub fn path_components(path: &str) -> (r: Result<Vec<&str>, SscError>)
    ensures
        is_ssc_path(path@) ==> (r matches Ok(parts) && str_views(parts@) == path_keys(path@)),
        !is_ssc_path(path@) ==> (r matches Err(SscError::InvalidPath)),
{
    let rest = normalize_path(path)?;
    Ok(split_on_slash(rest))
}

/// The path of the entry `key` below `path`: `/key` below the root path,
/// `path/key` below any other.
pub fn child_path_of(path: &str, key: &str) -> (r: String)
    ensures
        r@ == child_path(path@, key@),
{
    if is_root(path) {
        let mut s = String::from_str("/");
        proof {
            reveal_strlit("/");
        }
        s.append(key);
        s
    } else {
        let mut s = String::from_str(path);
        s.append("/");
        proof {
            reveal_strlit("/");
        }
        s.append(key);
        s
    }
}

} // verus!
