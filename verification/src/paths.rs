//! File-system paths, held as text.
//!
//! Paths are joined and split by the standard library (`Path::join`,
//! `Path::components`), whose separators differ between platforms; the
//! contracts below say what holds on every platform, for the kinds of
//! paths they name.

use vstd::prelude::*;

use crate::text::{concat, from_chars, to_chars};

verus! {

/// A single relative path component on every platform: not empty, not `.`
/// or `..`, and without `/`, `\` or `:`.
pub open spec fn plain_component(name: Seq<char>) -> bool {
    &&& name.len() > 0
    &&& name != seq!['.']
    &&& name != seq!['.', '.']
    &&& forall|i: int| 0 <= i < name.len() ==> #[trigger] name[i] != '/' && name[i] != '\\' && name[i] != ':'
}

/// A Windows verbatim path (`\\?\...`): `Path::join` normalises the whole
/// path when it extends one.
pub open spec fn verbatim(dir: Seq<char>) -> bool {
    dir.len() >= 4 && dir[0] == '\\' && dir[1] == '\\' && dir[2] == '?' && dir[3] == '\\'
}

/// `dir` and `name` joined as `Path::join` does for a plain component: an
/// empty `dir` gives the name; after a `/` the name follows directly; a
/// `dir` ending in any other char gets a separator (`/` or `\`, by
/// platform) before the name, except that after `\` or `:` the platform
/// may add none.
pub open spec fn joined(dir: Seq<char>, name: Seq<char>, r: Seq<char>) -> bool {
    if dir.len() == 0 {
        r == name
    } else if dir.last() == '/' {
        r == dir + name
    } else if dir.last() == '\\' || dir.last() == ':' {
        ||| r == dir + name
        ||| r == dir + seq!['/'] + name
        ||| r == dir + seq!['\\'] + name
    } else {
        ||| r == dir + seq!['/'] + name
        ||| r == dir + seq!['\\'] + name
    }
}

/// `Path::new(dir).join(name)`, as text. For a plain component and a
/// `dir` that is not a Windows verbatim path, the result is [`joined`]:
/// `dir`, a separator when one is needed (which one depends on the
/// platform), and `name`. Other cases are not described.
#[verifier::external_body]
pub(crate) fn join_path(dir: &str, name: &str) -> (r: String)
    ensures
        plain_component(name@) && !verbatim(dir@) ==> joined(dir@, name@, r@),
{
    std::path::Path::new(dir).join(name).to_string_lossy().into_owned()
}

/// The pieces of `s` between `/` chars, in order (one empty piece for an
/// empty text).
pub open spec fn split_slash(s: Seq<char>) -> Seq<Seq<char>>
    decreases s.len(),
{
    if s.len() == 0 {
        seq![seq![]]
    } else {
        let prev = split_slash(s.drop_last());
        if s.last() == '/' {
            prev.push(seq![])
        } else {
            prev.update(prev.len() - 1, prev.last().push(s.last()))
        }
    }
}

/// Every piece is a plain component.
pub open spec fn all_plain(pieces: Seq<Seq<char>>) -> bool {
    forall|i: int| 0 <= i < pieces.len() ==> plain_component(#[trigger] pieces[i])
}

/// A relative path of plain components separated by single `/` chars.
pub open spec fn plain_relative(path: Seq<char>) -> bool {
    path.len() > 0 && path[0] != '/' && all_plain(split_slash(path))
}

/// An absolute path: `/` followed by plain components separated by single
/// `/` chars.
pub open spec fn plain_absolute(path: Seq<char>) -> bool {
    path.len() > 1 && path[0] == '/' && all_plain(split_slash(path.skip(1)))
}

/// The components of a path (`Path::components`), as text. How a path
/// splits depends on the platform's separators; for paths made of plain
/// components separated by single `/` chars every platform gives the same
/// pieces: the components themselves, after a root component (written as
/// the platform's separator, which is not stated) when the path starts with
/// `/`. Other paths are not described.
#[verifier::external_body]
pub(crate) fn path_components(path: &str) -> (r: Vec<String>)
    ensures
        plain_relative(path@) ==> strings_view(r@) == split_slash(path@),
        plain_absolute(path@) ==> strings_view(r@).len() == split_slash(path@.skip(1)).len() + 1
            && strings_view(r@).skip(1) == split_slash(path@.skip(1)),
{
    std::path::Path::new(path).components().map(|c| c.as_os_str().to_string_lossy().into_owned()).collect()
}

/// The pieces joined with `/` between them.
pub open spec fn join_slash(parts: Seq<Seq<char>>) -> Seq<char>
    decreases parts.len(),
{
    if parts.len() == 0 {
        seq![]
    } else if parts.len() == 1 {
        parts[0]
    } else {
        join_slash(parts.drop_last()) + seq!['/'] + parts.last()
    }
}

/// A path shortened to its last `max_components` components, given those
/// components: the path itself when it has no more than that, else `…/`
/// followed by the last components joined with `/`.
pub open spec fn shortened(path: Seq<char>, components: Seq<Seq<char>>, max_components: nat) -> Seq<char> {
    if components.len() <= max_components {
        path
    } else {
        seq!['…', '/'] + join_slash(components.skip(components.len() - max_components))
    }
}

pub open spec fn strings_view(v: Seq<String>) -> Seq<Seq<char>> {
    v.map_values(|s: String| s@)
}

/// Joins the texts with `/`.
pub fn join_with_slash(parts: &[String]) -> (r: String)
    ensures
        r@ == join_slash(strings_view(parts@)),
{
    let ghost all = strings_view(parts@);
    let mut out: Vec<char> = Vec::new();
    let mut i: usize = 0;
    assert(all.take(0) =~= Seq::<Seq<char>>::empty());
    while i < parts.len()
        invariant
            i <= parts@.len(),
            all == strings_view(parts@),
            out@ == join_slash(all.take(i as int)),
        decreases parts@.len() - i,
    {
        let piece = to_chars(parts[i].as_str());
        assert(all.take(i + 1).drop_last() =~= all.take(i as int));
        assert(all.take(i + 1).last() == parts@[i as int]@);
        if i > 0 {
            out.push('/');
        }
        out = concat(&out, &piece);
        if i == 0 {
            assert(out@ =~= join_slash(all.take(1)));
        }
        i += 1;
    }
    assert(all.take(parts@.len() as int) =~= all);
    from_chars(&out)
}

/// A path shortened to its last `max_components` components, given those
/// components (see [`shortened`]).
pub fn shorten_components(path: &str, components: &[String], max_components: usize) -> (r: String)
    ensures
        r@ == shortened(path@, strings_view(components@), max_components as nat),
{
    if components.len() <= max_components {
        return from_chars(&to_chars(path));
    }
    let start = components.len() - max_components;
    let tail = vstd::slice::slice_subrange(components, start, components.len());
    assert(strings_view(tail@) =~= strings_view(components@).skip(start as int));
    let joined = to_chars(join_with_slash(tail).as_str());
    let mut prefix: Vec<char> = Vec::new();
    prefix.push('…');
    prefix.push('/');
    from_chars(&concat(&prefix, &joined))
}

/// The short form of an absolute path of plain components (see
/// [`plain_absolute`]): the path itself when it has no more than
/// `max_components` components counting the root, else `…/` followed by its
/// last `max_components` pieces joined with `/`.
pub open spec fn shortened_absolute(path: Seq<char>, max_components: nat) -> Seq<char> {
    let pieces = split_slash(path.skip(1));
    if pieces.len() + 1 <= max_components {
        path
    } else {
        seq!['…', '/'] + join_slash(pieces.skip(pieces.len() - max_components))
    }
}

/// Short form of a path for cards: `…/` and its last `max_components`
/// components, or the path itself when it is short enough. For paths of
/// plain components separated by `/` the result is fixed (see
/// [`plain_relative`], [`plain_absolute`]); for other paths it is
/// [`shortened`] for the components the platform gives.
pub fn short_path(path: &str, max_components: usize) -> (r: String)
    ensures
        exists|components: Seq<Seq<char>>| r@ == shortened(path@, components, max_components as nat),
        plain_relative(path@) ==> r@ == shortened(path@, split_slash(path@), max_components as nat),
        plain_absolute(path@) ==> r@ == shortened_absolute(path@, max_components as nat),
{
    let components = path_components(path);
    let r = shorten_components(path, &components, max_components);
    let ghost cs = strings_view(components@);
    assert(r@ == shortened(path@, cs, max_components as nat));
    proof {
        if plain_absolute(path@) {
            let pieces = split_slash(path@.skip(1));
            if pieces.len() + 1 > max_components {
                assert(cs.skip(cs.len() - max_components) =~= pieces.skip(pieces.len() - max_components)) by {
                    assert forall|k: int| 0 <= k < max_components implies #[trigger] cs.skip(cs.len() - max_components)[k]
                        == pieces.skip(pieces.len() - max_components)[k] by {
                        assert(cs.skip(1)[pieces.len() - max_components + k] == cs[pieces.len() - max_components + k + 1]);
                    }
                }
            }
        }
    }
    r
}

} // verus!
