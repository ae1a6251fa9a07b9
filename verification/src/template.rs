//! The search-path template language: a byte string with `{var}`
//! placeholders, of which only `{start_dir}` is recognized.  Expanding a
//! template substitutes the parent directory of the start path.

use vstd::prelude::*;
use crate::strutil::bytes_eq;
use vstd::slice::{slice_subrange, slice_to_vec};

verus! {

/// The byte `/`.
pub const SLASH: u8 = 47;

/// The byte `{`.
pub const OPEN_BRACE: u8 = 123;

/// The byte `}`.
pub const CLOSE_BRACE: u8 = 125;

/// The recognized placeholder variable, `start_dir`, as bytes.
pub open spec fn start_dir_name() -> Seq<u8> {
    seq![115u8, 116u8, 97u8, 114u8, 116u8, 95u8, 100u8, 105u8, 114u8]
}

/// `p` without its trailing slashes.
pub open spec fn trim_slashes(p: Seq<u8>) -> Seq<u8>
    decreases p.len(),
{
    if p.len() > 0 && p[p.len() - 1] == SLASH {
        trim_slashes(p.drop_last())
    } else {
        p
    }
}

/// The index of the last slash of `p`, or `-1` if there is none.
pub open spec fn last_slash(p: Seq<u8>) -> int
    decreases p.len(),
{
    if p.len() == 0 {
        -1
    } else if p[p.len() - 1] == SLASH {
        p.len() - 1
    } else {
        last_slash(p.drop_last())
    }
}

/// The directory that a start path contributes to templates: the parent
/// directory of the path, with the empty parent standing for `.`.  A
/// path with no parent (empty, or nothing but slashes) has none.
pub open spec fn spec_start_dir(p: Seq<u8>) -> Option<Seq<u8>> {
    let t = trim_slashes(p);
    if t.len() == 0 {
        None
    } else {
        let k = last_slash(t);
        if k < 0 {
            Some(seq![46u8])
        } else {
            let pre = trim_slashes(t.subrange(0, k));
            if pre.len() == 0 {
                Some(seq![SLASH])
            } else {
                Some(pre)
            }
        }
    }
}

/// The index of the first `{` or `}` at or after `i`, or `sp.len()`.
pub open spec fn find_brace(sp: Seq<u8>, i: int) -> int
    decreases sp.len() - i,
{
    if i < 0 || i >= sp.len() {
        sp.len() as int
    } else if sp[i] == OPEN_BRACE || sp[i] == CLOSE_BRACE {
        i
    } else {
        find_brace(sp, i + 1)
    }
}

/// Expands the placeholders of `sp` from position `i` on, given the
/// start directory `sd`.  A stray `}`, an unterminated or nested `{`,
/// or an unknown variable makes the template invalid.
pub open spec fn spec_apply_from(sp: Seq<u8>, i: int, sd: Seq<u8>) -> Option<Seq<u8>>
    decreases sp.len() - i,
{
    let j = find_brace(sp, i);
    if j < i {
        None
    } else if j >= sp.len() {
        Some(sp.subrange(i, sp.len() as int))
    } else if sp[j] == CLOSE_BRACE {
        None
    } else {
        let k = find_brace(sp, j + 1);
        if k <= j || k >= sp.len() || sp[k] == OPEN_BRACE {
            None
        } else if sp.subrange(j + 1, k) == start_dir_name() {
            match spec_apply_from(sp, k + 1, sd) {
                Some(rest) => Some(sp.subrange(i, j) + sd + rest),
                None => None,
            }
        } else {
            None
        }
    }
}

/// What expanding a whole template list against a start path yields:
/// the expansion, or nothing when the path has no parent directory or
/// the template is malformed.
pub open spec fn spec_apply_search_paths_template(sp: Seq<u8>, start_path: Seq<u8>) -> Option<
    Seq<u8>,
> {
    match spec_start_dir(start_path) {
        None => None,
        Some(sd) => spec_apply_from(sp, 0, sd),
    }
}

/// Builds the placeholder name `start_dir` as a vector.
fn start_dir_pattern() -> (r: Vec<u8>)
    ensures
        r@ == start_dir_name(),
{
    let mut p: Vec<u8> = Vec::new();
    p.push(115);
    p.push(116);
    p.push(97);
    p.push(114);
    p.push(116);
    p.push(95);
    p.push(100);
    p.push(105);
    p.push(114);
    proof {
        assert(p@ =~= start_dir_name());
    }
    p
}

/// Strips the trailing slashes of `p[..n]` and returns the new length.
fn trim_slashes_len(p: &[u8], n: usize) -> (r: usize)
    requires
        n <= p@.len(),
    ensures
        r <= n,
        trim_slashes(p@.subrange(0, n as int)) == p@.subrange(0, r as int),
    decreases n,
{
    if n > 0 && p[n - 1] == SLASH {
        proof {
            assert(p@.subrange(0, n as int).drop_last() =~= p@.subrange(0, n as int - 1));
        }
        trim_slashes_len(p, n - 1)
    } else {
        proof {
            let t = p@.subrange(0, n as int);
            assert(n > 0 ==> t[n as int - 1] == p@[n as int - 1]);
        }
        n
    }
}

/// The index of the last slash of `p[..n]`, as `last_slash` gives it.
fn last_slash_exec(p: &[u8], n: usize) -> (r: Option<usize>)
    requires
        n <= p@.len(),
    ensures
        match r {
            Some(k) => last_slash(p@.subrange(0, n as int)) == k as int && k < n,
            None => last_slash(p@.subrange(0, n as int)) == -1,
        },
    decreases n,
{
    if n == 0 {
        proof {
            assert(p@.subrange(0, 0) =~= Seq::<u8>::empty());
        }
        None
    } else if p[n - 1] == SLASH {
        proof {
            let t = p@.subrange(0, n as int);
            assert(t[t.len() - 1] == p@[n as int - 1]);
        }
        Some(n - 1)
    } else {
        proof {
            let t = p@.subrange(0, n as int);
            assert(t[t.len() - 1] == p@[n as int - 1]);
            assert(t.drop_last() =~= p@.subrange(0, n as int - 1));
        }
        last_slash_exec(p, n - 1)
    }
}

/// Computes the start directory of a path: its parent directory, with
/// `.` for the empty parent.
pub fn start_dir_of(p: &[u8]) -> (r: Option<Vec<u8>>)
    ensures
        match r {
            Some(v) => spec_start_dir(p@) == Some(v@),
            None => spec_start_dir(p@) is None,
        },
{
    proof {
        assert(p@.subrange(0, p@.len() as int) =~= p@);
    }
    let tlen = trim_slashes_len(p, p.len());
    if tlen == 0 {
        return None;
    }
    let ghost t = p@.subrange(0, tlen as int);
    match last_slash_exec(p, tlen) {
        None => {
            let mut v: Vec<u8> = Vec::new();
            v.push(46);
            proof {
                assert(v@ =~= seq![46u8]);
            }
            Some(v)
        }
        Some(k) => {
            proof {
                assert(t.subrange(0, k as int) =~= p@.subrange(0, k as int));
            }
            let plen = trim_slashes_len(p, k);
            if plen == 0 {
                let mut v: Vec<u8> = Vec::new();
                v.push(SLASH);
                proof {
                    assert(v@ =~= seq![SLASH]);
                }
                Some(v)
            } else {
                let v = slice_to_vec(slice_subrange(p, 0, plen));
                proof {
                    assert(v@ =~= p@.subrange(0, plen as int));
                }
                Some(v)
            }
        }
    }
}

/// The first `{` or `}` of `sp` at or after `i`, as an index, or the
/// length when there is none.
fn find_brace_exec(sp: &[u8], i: usize) -> (r: usize)
    requires
        i <= sp@.len(),
    ensures
        r as int == find_brace(sp@, i as int),
        i <= r <= sp@.len(),
        r < sp@.len() ==> (sp@[r as int] == OPEN_BRACE || sp@[r as int] == CLOSE_BRACE),
    decreases sp@.len() - i,
{
    if i >= sp.len() {
        sp.len()
    } else if sp[i] == OPEN_BRACE || sp[i] == CLOSE_BRACE {
        i
    } else {
        find_brace_exec(sp, i + 1)
    }
}

/// Expands `sp[i..]` with the start directory `sd`.
fn apply_from(sp: &[u8], i: usize, sd: &[u8]) -> (r: Option<Vec<u8>>)
    requires
        i <= sp@.len(),
    ensures
        match r {
            Some(v) => spec_apply_from(sp@, i as int, sd@) == Some(v@),
            None => spec_apply_from(sp@, i as int, sd@) is None,
        },
    decreases sp@.len() - i,
{
    let j = find_brace_exec(sp, i);
    if j >= sp.len() {
        let v = slice_to_vec(slice_subrange(sp, i, sp.len()));
        return Some(v);
    }
    if sp[j] == CLOSE_BRACE {
        return None;
    }
    let k = find_brace_exec(sp, j + 1);
    if k >= sp.len() || sp[k] == OPEN_BRACE {
        return None;
    }
    let var = slice_subrange(sp, j + 1, k);
    let pat = start_dir_pattern();
    if !bytes_eq(var, pat.as_slice()) {
        return None;
    }
    match apply_from(sp, k + 1, sd) {
        None => None,
        Some(rest) => {
            let mut out = slice_to_vec(slice_subrange(sp, i, j));
            crate::strutil::push_bytes(&mut out, sd);
            crate::strutil::push_bytes(&mut out, rest.as_slice());
            proof {
                assert(out@ =~= sp@.subrange(i as int, j as int) + sd@ + rest@);
            }
            Some(out)
        }
    }
}

/// Expands a search-path template against a start path: substitutes the
/// start path's parent directory for each `{start_dir}` placeholder.
/// Yields nothing when the start path has no parent or the template is
/// malformed: a stray `}`, an unterminated `{`, a nested `{`, or an
/// unknown variable.
pub fn apply_search_paths_template(search_paths: &[u8], start_path: &[u8]) -> (r: Option<Vec<u8>>)
    ensures
        match r {
            Some(v) => spec_apply_search_paths_template(search_paths@, start_path@) == Some(v@),
            None => spec_apply_search_paths_template(search_paths@, start_path@) is None,
        },
{
    match start_dir_of(start_path) {
        None => None,
        Some(sd) => apply_from(search_paths, 0, sd.as_slice()),
    }
}

} // verus!
