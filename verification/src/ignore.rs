//! Parsing of gitignore text into patterns, and the set of resolved
//! absolute paths that a walk excludes.
//!
//! Paths and patterns are byte strings: the UTF-8 bytes of the path as the
//! operating system reports it.

use vstd::prelude::*;

verus! {

/// Byte-for-byte equality of two byte strings.
pub fn bytes_eq(a: &Vec<u8>, b: &Vec<u8>) -> (r: bool)
    ensures
        r == (a@ == b@),
{
    if a.len() != b.len() {
        return false;
    }
    let mut i: usize = 0;
    while i < a.len()
        invariant
            i <= a.len(),
            a@.len() == b@.len(),
            forall|j: int| 0 <= j < i ==> a@[j] == b@[j],
        decreases a.len() - i,
    {
        if a[i] != b[i] {
            return false;
        }
        i = i + 1;
    }
    proof {
        assert(a@ =~= b@);
    }
    true
}

/// The set of absolute paths excluded from a walk. Membership is by exact
/// byte equality; duplicates among the stored paths are harmless.
pub struct IgnoreSet {
    pub paths: Vec<Vec<u8>>,
}

impl View for IgnoreSet {
    type V = Set<Seq<u8>>;

    open spec fn view(&self) -> Set<Seq<u8>> {
        Set::new(
            |p: Seq<u8>| exists|i: int| 0 <= i < self.paths@.len() && self.paths@[i]@ == p,
        )
    }
}

impl IgnoreSet {
    /// The empty ignore set: nothing is excluded. This is what a walk uses
    /// when gitignore handling is disabled.
    pub fn empty() -> (r: IgnoreSet)
        ensures
            r@ == Set::<Seq<u8>>::empty(),
    {
        let r = IgnoreSet { paths: Vec::new() };
        proof {
            assert(r@ =~= Set::<Seq<u8>>::empty());
        }
        r
    }

    /// An ignore set holding exactly the given paths.
    pub fn from_paths(paths: Vec<Vec<u8>>) -> (r: IgnoreSet)
        ensures
            forall|p: Seq<u8>| #[trigger] r@.contains(p)
                <==> exists|i: int| 0 <= i < paths@.len() && paths@[i]@ == p,
    {
        IgnoreSet { paths }
    }

    /// Whether `p` is one of the excluded paths.
    pub fn contains(&self, p: &Vec<u8>) -> (r: bool)
        ensures
            r == self@.contains(p@),
    {
        let mut i: usize = 0;
        while i < self.paths.len()
            invariant
                i <= self.paths@.len(),
                forall|j: int| 0 <= j < i ==> self.paths@[j]@ != p@,
            decreases self.paths@.len() - i,
        {
            if bytes_eq(&self.paths[i], p) {
                return true;
            }
            i = i + 1;
        }
        false
    }
}

/// Index of the line break that ends the line starting at `i`: the first
/// newline byte at or after `i`, or the end of the text if there is none.
pub open spec fn line_end(t: Seq<u8>, i: int) -> int
    decreases t.len() - i,
    when 0 <= i
{
    if i >= t.len() {
        t.len() as int
    } else if t[i] == 10 {
        i
    } else {
        line_end(t, i + 1)
    }
}

/// The line break ending a line lies between the line's start and the end
/// of the text, and it is the text's end or a newline byte.
proof fn lemma_line_end_bounds(t: Seq<u8>, i: int)
    requires
        0 <= i,
    ensures
        i <= line_end(t, i) <= t.len() || (i > t.len() && line_end(t, i) == t.len()),
        line_end(t, i) < t.len() ==> t[line_end(t, i)] == 10,
    decreases t.len() - i,
{
    if i < t.len() && t[i] != 10 {
        lemma_line_end_bounds(t, i + 1);
    }
}

/// A raw line with its line ending removed: a trailing carriage return
/// left behind by a CRLF break is dropped.
pub open spec fn strip_cr(l: Seq<u8>) -> Seq<u8> {
    if l.len() > 0 && l.last() == 13 {
        l.drop_last()
    } else {
        l
    }
}

/// Whether a line contributes a pattern: blank lines, comment lines
/// (leading `#`) and negation lines (leading `!`) do not.
pub open spec fn line_kept(l: Seq<u8>) -> bool {
    l.len() > 0 && l[0] != 35 && l[0] != 33
}

/// The pattern a kept line contributes: the line itself, with a leading
/// `/` stripped (anchoring to the root is implicit, since every pattern
/// is later joined to the root).
pub open spec fn pattern_of(l: Seq<u8>) -> Seq<u8>
    recommends
        line_kept(l),
{
    if l[0] == 47 {
        l.drop_first()
    } else {
        l
    }
}

/// The patterns contributed by the lines of `t` from position `i` on.
pub open spec fn patterns_from(t: Seq<u8>, i: int) -> Seq<Seq<u8>>
    decreases t.len() - i + 1,
    when 0 <= i
    via patterns_from_decreases
{
    if i >= t.len() {
        Seq::empty()
    } else {
        let e = line_end(t, i);
        let l = strip_cr(t.subrange(i, e));
        let rest = patterns_from(t, e + 1);
        if line_kept(l) {
            seq![pattern_of(l)] + rest
        } else {
            rest
        }
    }
}

#[via_fn]
proof fn patterns_from_decreases(t: Seq<u8>, i: int) {
    if 0 <= i < t.len() {
        lemma_line_end_bounds(t, i);
    }
}

/// All patterns contributed by a gitignore text.
pub open spec fn gitignore_patterns_spec(t: Seq<u8>) -> Seq<Seq<u8>> {
    patterns_from(t, 0)
}

/// Parse gitignore text into the patterns it contributes, in order: one
/// per line, skipping blank, comment (`#`) and negation (`!`) lines, and
/// stripping a leading `/` from each kept line.
pub fn parse_gitignore(text: &Vec<u8>) -> (pats: Vec<Vec<u8>>)
    ensures
        pats.deep_view() == gitignore_patterns_spec(text@),
{
    let ghost t = text@;
    let mut pats: Vec<Vec<u8>> = Vec::new();
    let mut i: usize = 0;
    while i < text.len()
        invariant
            text@ == t,
            i <= t.len(),
            gitignore_patterns_spec(t) == pats.deep_view() + patterns_from(t, i as int),
        decreases t.len() - i,
    {
        let ghost pats0 = pats.deep_view();
        let mut j: usize = i;
        while j < text.len() && text[j] != 10
            invariant
                text@ == t,
                i <= j <= t.len(),
                line_end(t, i as int) == line_end(t, j as int),
            decreases t.len() - j,
        {
            j = j + 1;
        }
        proof {
            assert(line_end(t, j as int) == j);
        }
        let ghost l = strip_cr(t.subrange(i as int, j as int));
        let mut end: usize = j;
        if end > i && text[end - 1] == 13 {
            end = end - 1;
            proof {
                assert(t.subrange(i as int, j as int).last() == t[j - 1]);
                assert(l =~= t.subrange(i as int, end as int));
            }
        } else {
            proof {
                assert(l =~= t.subrange(i as int, end as int));
            }
        }
        if end > i {
            let c0 = text[i];
            proof {
                assert(l[0] == t[i as int]);
            }
            if c0 != 35 && c0 != 33 {
                let start: usize = if c0 == 47 {
                    i + 1
                } else {
                    i
                };
                proof {
                    assert(pattern_of(l) =~= t.subrange(start as int, end as int));
                }
                let mut p: Vec<u8> = Vec::new();
                let mut k: usize = start;
                while k < end
                    invariant
                        text@ == t,
                        start <= k <= end <= t.len(),
                        p@ == t.subrange(start as int, k as int),
                    decreases end - k,
                {
                    p.push(text[k]);
                    proof {
                        assert(t.subrange(start as int, k + 1) =~= t.subrange(
                            start as int,
                            k as int,
                        ).push(t[k as int]));
                    }
                    k = k + 1;
                }
                proof {
                    assert(p.deep_view() =~= p@);
                    assert(line_kept(l));
                }
                pats.push(p);
                proof {
                    assert(pats.deep_view() =~= pats0.push(pattern_of(l)));
                    assert(pats.deep_view() + patterns_from(t, j + 1) =~= pats0 + (seq![
                        pattern_of(l),
                    ] + patterns_from(t, j + 1)));
                }
            } else {
                proof {
                    assert(!line_kept(l));
                }
            }
        } else {
            proof {
                assert(!line_kept(l));
            }
        }
        if j == text.len() {
            i = j;
            proof {
                assert(patterns_from(t, j as int) =~= Seq::<Seq<u8>>::empty());
                assert(patterns_from(t, j + 1) =~= Seq::<Seq<u8>>::empty());
                assert(pats.deep_view() + patterns_from(t, j as int) =~= pats.deep_view()
                    + patterns_from(t, j + 1));
            }
        } else {
            i = j + 1;
        }
    }
    proof {
        assert(patterns_from(t, i as int) =~= Seq::<Seq<u8>>::empty());
        assert(gitignore_patterns_spec(t) =~= pats.deep_view());
    }
    pats
}

/// A pattern joined to the root path, the way paths are joined on Unix:
/// an absolute pattern stands alone; otherwise the root and the pattern
/// are concatenated, with a separator added unless the root already ends
/// in one.
pub open spec fn spec_join(root: Seq<u8>, pat: Seq<u8>) -> Seq<u8> {
    if pat.len() > 0 && pat[0] == 47 {
        pat
    } else if root.len() > 0 && root.last() == 47 {
        root + pat
    } else {
        root + seq![47u8] + pat
    }
}

/// Append a whole byte string to another.
fn push_all(dst: &mut Vec<u8>, src: &Vec<u8>)
    ensures
        final(dst)@ == old(dst)@ + src@,
{
    let ghost d0 = dst@;
    let mut k: usize = 0;
    while k < src.len()
        invariant
            k <= src@.len(),
            dst@ == d0 + src@.take(k as int),
        decreases src@.len() - k,
    {
        dst.push(src[k]);
        proof {
            assert(d0 + src@.take(k + 1) =~= (d0 + src@.take(k as int)).push(src@[k as int]));
        }
        k = k + 1;
    }
    proof {
        assert(d0 + src@.take(src@.len() as int) =~= d0 + src@);
    }
}

/// Join a pattern to the root path.
pub fn join_path(root: &Vec<u8>, pat: &Vec<u8>) -> (r: Vec<u8>)
    ensures
        r@ == spec_join(root@, pat@),
{
    let mut r: Vec<u8> = Vec::new();
    if pat.len() > 0 && pat[0] == 47 {
        push_all(&mut r, pat);
        proof {
            assert(r@ =~= spec_join(root@, pat@));
        }
    } else {
        push_all(&mut r, root);
        if !(root.len() > 0 && root[root.len() - 1] == 47) {
            r.push(47);
            proof {
                assert(r@ =~= root@ + seq![47u8]);
            }
        }
        push_all(&mut r, pat);
        proof {
            assert(Seq::<u8>::empty() + root@ =~= root@);
            assert(r@ =~= spec_join(root@, pat@));
        }
    }
    r
}

/// The patterns of a gitignore file that may be absent: a missing file
/// contributes no patterns at all, exactly as when gitignore handling is
/// disabled.
pub fn gitignore_patterns(contents: Option<&Vec<u8>>) -> (pats: Vec<Vec<u8>>)
    ensures
        contents matches Some(text) ==> pats.deep_view() == gitignore_patterns_spec(text@),
        contents is None ==> pats.deep_view() == Seq::<Seq<u8>>::empty(),
{
    match contents {
        Some(text) => parse_gitignore(text),
        None => {
            let pats: Vec<Vec<u8>> = Vec::new();
            proof {
                assert(pats.deep_view() =~= Seq::<Seq<u8>>::empty());
            }
            pats
        },
    }
}

} // verus!
