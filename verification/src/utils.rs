//! Path derivation.  A subject file `<dir>/<base>` keeps its history and its
//! versioned copies under `<dir>/bak/<base>/`: the history document is
//! `<base>_swinstall_stack` and each versioned copy is `<base>_<version>`.
//!
//! Paths are modelled as platform path operations see them: a path is its
//! list of components, where empty pieces (doubled or trailing separators)
//! and `.` pieces vanish — except a leading `.`, which is kept — and the
//! base name is the last component, provided it is a real name and not `.`
//! or `..`.

use vstd::prelude::*;

use crate::errors::ErrView;
use crate::errors::SwInstallError;
use crate::text::find_sep_positions;
use crate::text::lemma_sep_positions_sound;
use crate::text::sep_positions;
use crate::text::str_eq;
use vstd::string::StrSliceExecFns;
use vstd::string::StringExecFns;

verus! {

/// The `k`-th piece of a path split at every separator, empties included.
pub open spec fn piece_at(p: Seq<char>, k: int) -> Seq<char> {
    let seps = sep_positions(p, '/');
    let start = if k == 0 {
        0
    } else {
        seps[k - 1] + 1
    };
    let end = if k == seps.len() {
        p.len() as int
    } else {
        seps[k]
    };
    p.subrange(start, end)
}

/// Whether piece `k` survives as a component: empty pieces and `.` pieces
/// vanish, except a leading `.`.
pub open spec fn piece_kept(p: Seq<char>, k: int) -> bool {
    piece_at(p, k).len() > 0 && (piece_at(p, k) != "."@ || k == 0)
}

/// The surviving pieces among the first `k`.
pub open spec fn kept_upto(p: Seq<char>, k: int) -> Seq<Seq<char>>
    decreases k,
{
    if k <= 0 {
        Seq::<Seq<char>>::empty()
    } else {
        kept_upto(p, k - 1) + if piece_kept(p, k - 1) {
            seq![piece_at(p, k - 1)]
        } else {
            Seq::<Seq<char>>::empty()
        }
    }
}

/// The path's components.
pub open spec fn comps(p: Seq<char>) -> Seq<Seq<char>> {
    kept_upto(p, sep_positions(p, '/').len() + 1 as int)
}

/// Whether the path is absolute.
pub open spec fn is_abs(p: Seq<char>) -> bool {
    p.len() > 0 && p[0] == '/'
}

/// The base name in a component list: its last component, where that is a
/// real name rather than `.` or `..`.
pub open spec fn last_name(c: Seq<Seq<char>>) -> Option<Seq<char>> {
    if c.len() == 0 {
        None
    } else if c.last() == "."@ || c.last() == ".."@ {
        None
    } else {
        Some(c.last())
    }
}

/// A component list rendered back to a relative path, one separator between
/// components.
pub open spec fn render_rel(c: Seq<Seq<char>>) -> Seq<char>
    decreases c.len(),
{
    if c.len() == 0 {
        Seq::<char>::empty()
    } else if c.len() == 1 {
        c[0]
    } else {
        render_rel(c.drop_last()) + "/"@ + c.last()
    }
}

/// A component list rendered back to a path.
pub open spec fn render(c: Seq<Seq<char>>, abs: bool) -> Seq<char> {
    if abs {
        "/"@ + render_rel(c)
    } else {
        render_rel(c)
    }
}

/// The history-document path for a subject file:
/// `<dir>/bak/<base>/<base>_swinstall_stack`, or `NoFileNameFromPath` where
/// the subject has no extractable base name.
pub open spec fn stack_path_of(p: Seq<char>) -> Result<Seq<char>, ErrView> {
    match last_name(comps(p)) {
        None => Err(ErrView::NoFileNameFromPath),
        Some(base) => Ok(
            render(
                comps(p).drop_last().push("bak"@).push(base).push(base + "_swinstall_stack"@),
                is_abs(p),
            ),
        ),
    }
}

/// The versioned-copy path for a subject file:
/// `<dir>/bak/<base>/<base>_<version>`.
pub open spec fn versioned_path_of(p: Seq<char>, version: Seq<char>) -> Result<Seq<char>, ErrView> {
    match last_name(comps(p)) {
        None => Err(ErrView::NoFileNameFromPath),
        Some(base) => Ok(
            render(
                comps(p).drop_last().push("bak"@).push(base).push(base + "_"@ + version),
                is_abs(p),
            ),
        ),
    }
}

/// The versioned-copy path derived from the history document's own path,
/// which already lives in `<dir>/<base>/`: the document's name comes off,
/// the containing directory names the base, and the copy is its sibling,
/// `<dir>/<base>/<base>_<version>`.
pub open spec fn versioned_from_stack_of(p: Seq<char>, version: Seq<char>) -> Result<
    Seq<char>,
    ErrView,
> {
    let c = comps(p);
    let c1 = if c.len() == 0 {
        c
    } else {
        c.drop_last()
    };
    match last_name(c1) {
        None => Err(ErrView::NoFileNameFromPath),
        Some(base) => Ok(render(c1.drop_last().push(base).push(base + "_"@ + version), is_abs(p))),
    }
}

/// The views of a component list.
pub open spec fn comp_views(c: Seq<String>) -> Seq<Seq<char>> {
    c.map_values(|s: String| s@)
}

/// Whether the path is absolute, as executable code.
fn is_absolute(p: &str) -> (r: bool)
    ensures
        r == is_abs(p@),
{
    if p.unicode_len() == 0 {
        false
    } else {
        p.get_char(0) == '/'
    }
}

/// Split a path into its components, as executable code.
fn path_comps(p: &str) -> (r: Vec<String>)
    ensures
        comp_views(r@) == comps(p@),
{
    let seps = find_sep_positions(p, '/');
    let n = p.unicode_len();
    let m = seps.len();
    proof {
        lemma_sep_positions_sound(p@, '/');
        assert(seps@.map_values(|q: usize| q as int).len() == m);
    }
    let mut out: Vec<String> = Vec::new();
    proof {
        assert(comp_views(out@) =~= kept_upto(p@, 0));
    }
    let mut k: usize = 0;
    while k < m
        invariant
            k <= m,
            m == seps@.len(),
            m == sep_positions(p@, '/').len(),
            n == p@.len(),
            seps@.map_values(|q: usize| q as int) == sep_positions(p@, '/'),
            forall|j: int|
                0 <= j < m ==> 0 <= #[trigger] sep_positions(p@, '/')[j] < n && (j > 0
                    ==> sep_positions(p@, '/')[j - 1] < sep_positions(p@, '/')[j]),
            comp_views(out@) == kept_upto(p@, k as int),
        decreases m - k,
    {
        proof {
            assert(seps@.map_values(|q: usize| q as int)[k as int] == seps@[k as int] as int);
            if k > 0 {
                assert(seps@.map_values(|q: usize| q as int)[k - 1 as int] == seps@[k
                    - 1 as int] as int);
            }
        }
        let start = if k == 0 {
            0
        } else {
            seps[k - 1] + 1
        };
        let end = seps[k];
        let piece = p.substring_char(start, end).to_owned();
        proof {
            assert(piece@ =~= piece_at(p@, k as int));
        }
        let keep = piece.as_str().unicode_len() > 0 && (k == 0 || !str_eq(piece.as_str(), "."));
        let ghost prev = comp_views(out@);
        if keep {
            out.push(piece);
        }
        proof {
            if keep {
                assert(comp_views(out@) =~= prev + seq![piece_at(p@, k as int)]);
            }
            assert(comp_views(out@) =~= kept_upto(p@, k + 1 as int));
        }
        k = k + 1;
    }
    proof {
        if m > 0 {
            assert(seps@.map_values(|q: usize| q as int)[m - 1 as int] == seps@[m
                - 1 as int] as int);
        }
    }
    let start = if m == 0 {
        0
    } else {
        seps[m - 1] + 1
    };
    let piece = p.substring_char(start, n).to_owned();
    proof {
        assert(piece@ =~= piece_at(p@, m as int));
    }
    let keep = piece.as_str().unicode_len() > 0 && (m == 0 || !str_eq(piece.as_str(), "."));
    let ghost prev = comp_views(out@);
    if keep {
        out.push(piece);
    }
    proof {
        if keep {
            assert(comp_views(out@) =~= prev + seq![piece_at(p@, m as int)]);
        }
        assert(comp_views(out@) =~= kept_upto(p@, m + 1 as int));
    }
    out
}

/// Take the base name off a component list, where its last component is a
/// real name.
fn pop_base(c: &mut Vec<String>) -> (r: Option<String>)
    ensures
        match r {
            Some(b) => last_name(comp_views(old(c)@)) == Some(b@) && comp_views(final (c)@)
                == comp_views(old(c)@).drop_last(),
            None => last_name(comp_views(old(c)@)) is None && final (c)@ == old(c)@,
        },
{
    let n = c.len();
    proof {
        assert(comp_views(c@).len() == n);
        if n > 0 {
            assert(comp_views(c@)[n - 1 as int] == c@[n - 1 as int]@);
            assert(comp_views(c@).last() == c@[n - 1 as int]@);
        }
    }
    if n == 0 {
        return None;
    }
    if str_eq(c[n - 1].as_str(), ".") || str_eq(c[n - 1].as_str(), "..") {
        return None;
    }
    match c.pop() {
        Some(b) => {
            proof {
                assert(comp_views(c@) =~= comp_views(old(c)@).drop_last());
            }
            Some(b)
        },
        None => None,
    }
}

/// Render a component list back to a path, as executable code.
fn render_path(c: &Vec<String>, abs: bool) -> (r: String)
    ensures
        r@ == render(comp_views(c@), abs),
{
    let mut s: String = if abs {
        "/".to_owned()
    } else {
        String::new()
    };
    let n = c.len();
    let ghost v = comp_views(c@);
    proof {
        assert(v.len() == n);
        assert(v.take(0) =~= Seq::<Seq<char>>::empty());
        if abs {
            assert(s@ =~= "/"@ + render_rel(v.take(0)));
        } else {
            assert(s@ =~= render_rel(v.take(0)));
        }
    }
    let mut i: usize = 0;
    while i < n
        invariant
            i <= n,
            n == c@.len(),
            v == comp_views(c@),
            s@ == (if abs {
                "/"@ + render_rel(v.take(i as int))
            } else {
                render_rel(v.take(i as int))
            }),
        decreases n - i,
    {
        proof {
            assert(v[i as int] == c@[i as int]@);
            assert(v.take(i + 1 as int).drop_last() =~= v.take(i as int));
            assert(v.take(i + 1 as int).last() == v[i as int]);
        }
        if i > 0 {
            s.append("/");
        }
        s.append(c[i].as_str());
        proof {
            if i == 0 {
                assert(render_rel(v.take(1)) == v[0]);
                if abs {
                    assert(s@ =~= "/"@ + render_rel(v.take(1)));
                } else {
                    assert(s@ =~= render_rel(v.take(1)));
                }
            } else {
                assert(render_rel(v.take(i + 1 as int)) == render_rel(v.take(i as int)) + "/"@
                    + v[i as int]);
                if abs {
                    assert(s@ =~= "/"@ + render_rel(v.take(i + 1 as int)));
                } else {
                    assert(s@ =~= render_rel(v.take(i + 1 as int)));
                }
            }
        }
        i = i + 1;
    }
    proof {
        assert(v.take(n as int) =~= v);
    }
    s
}

/// Given the path to a versionless subject file, the path of its history
/// document.
pub fn swinstall_stack_from_versionless(filepath: &str) -> (r: Result<String, SwInstallError>)
    ensures
        match r {
            Ok(s) => stack_path_of(filepath@) == Ok::<Seq<char>, ErrView>(s@),
            Err(e) => stack_path_of(filepath@) == Err::<Seq<char>, ErrView>(e@),
        },
{
    let abs = is_absolute(filepath);
    let mut c = path_comps(filepath);
    let base = match pop_base(&mut c) {
        Some(b) => b,
        None => {
            return Err(SwInstallError::NoFileNameFromPath);
        },
    };
    let ghost gb = base@;
    c.push("bak".to_owned());
    c.push(base.clone());
    let mut name = base;
    name.append("_swinstall_stack");
    c.push(name);
    proof {
        assert(comp_views(c@) =~= comps(filepath@).drop_last().push("bak"@).push(gb).push(
            gb + "_swinstall_stack"@,
        ));
    }
    Ok(render_path(&c, abs))
}

/// Given a versionless subject file and a version token, the full path of
/// that version's copy.
pub fn versioned_from_versionless(filepath: &str, version: &str) -> (r: Result<
    String,
    SwInstallError,
>)
    ensures
        match r {
            Ok(s) => versioned_path_of(filepath@, version@) == Ok::<Seq<char>, ErrView>(s@),
            Err(e) => versioned_path_of(filepath@, version@) == Err::<Seq<char>, ErrView>(e@),
        },
{
    let abs = is_absolute(filepath);
    let mut c = path_comps(filepath);
    let base = match pop_base(&mut c) {
        Some(b) => b,
        None => {
            return Err(SwInstallError::NoFileNameFromPath);
        },
    };
    let ghost gb = base@;
    c.push("bak".to_owned());
    c.push(base.clone());
    let mut name = base;
    name.append("_");
    name.append(version);
    c.push(name);
    proof {
        assert(comp_views(c@) =~= comps(filepath@).drop_last().push("bak"@).push(gb).push(
            gb + "_"@ + version@,
        ));
    }
    Ok(render_path(&c, abs))
}

/// Given the history document's path and a version token, the full path of
/// that version's copy, a sibling of the document.
pub fn versioned_from_swinstall_stack(filepath: &str, version: &str) -> (r: Result<
    String,
    SwInstallError,
>)
    ensures
        match r {
            Ok(s) => versioned_from_stack_of(filepath@, version@) == Ok::<Seq<char>, ErrView>(s@),
            Err(e) => versioned_from_stack_of(filepath@, version@) == Err::<Seq<char>, ErrView>(
                e@,
            ),
        },
{
    let abs = is_absolute(filepath);
    let mut c = path_comps(filepath);
    match c.pop() {
        Some(_doc) => {},
        None => {
            return Err(SwInstallError::NoFileNameFromPath);
        },
    }
    proof {
        assert(comp_views(c@) =~= comps(filepath@).drop_last());
    }
    let base = match pop_base(&mut c) {
        Some(b) => b,
        None => {
            return Err(SwInstallError::NoFileNameFromPath);
        },
    };
    let ghost gb = base@;
    c.push(base.clone());
    let mut name = base;
    name.append("_");
    name.append(version);
    c.push(name);
    proof {
        assert(comp_views(c@) =~= comps(filepath@).drop_last().drop_last().push(gb).push(
            gb + "_"@ + version@,
        ));
    }
    Ok(render_path(&c, abs))
}

} // verus!
