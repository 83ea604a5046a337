//! Paths as component lists.
//!
//! A path is an absolute/relative flag plus an ordered list of components.
//! Joining a path onto another follows native path-join semantics: an
//! absolute right-hand side replaces the accumulator entirely.

use vstd::prelude::*;

verus! {

/// Mathematical model of a path: the absolute flag and the components.
#[verifier::ext_equal]
pub struct PathModel {
    pub absolute: bool,
    pub parts: Seq<Seq<char>>,
}

/// A filesystem path, held as its components.
#[derive(Debug)]
pub struct NodePath {
    pub absolute: bool,
    pub parts: Vec<String>,
}

impl View for NodePath {
    type V = PathModel;

    open spec fn view(&self) -> PathModel {
        PathModel { absolute: self.absolute, parts: self.parts@.map_values(|s: String| s@) }
    }
}

/// Number of leading components contributed by the root itself.
pub open spec fn root_count(p: PathModel) -> int {
    if p.absolute {
        1int
    } else {
        0int
    }
}

/// Total number of components, counting the root of an absolute path as one,
/// mirroring how native path iteration yields the root directory first.
pub open spec fn num_components(p: PathModel) -> int {
    p.parts.len() + root_count(p)
}

/// The path made of the first `n` components of `p`.
pub open spec fn prefix_path(p: PathModel, n: int) -> PathModel {
    PathModel { absolute: p.absolute, parts: p.parts.subrange(0, n - root_count(p)) }
}

/// The (relative) path made of the components of `p` after the first `n`.
pub open spec fn suffix_after(p: PathModel, n: int) -> PathModel {
    PathModel { absolute: false, parts: p.parts.subrange(n - root_count(p), p.parts.len() as int) }
}

/// The components of a path string: the maximal nonempty runs of
/// non-separator characters, in order. Repeated or trailing separators
/// contribute nothing; `.` and `..` are ordinary components and are not
/// interpreted.
pub open spec fn parts_of(s: Seq<char>) -> Seq<Seq<char>>
    decreases s.len(),
{
    if s.len() == 0 {
        Seq::<Seq<char>>::empty()
    } else {
        let head = s.drop_last();
        let c = s.last();
        let p = parts_of(head);
        if c == '/' {
            p
        } else if head.len() == 0 || head.last() == '/' {
            p.push(seq![c])
        } else {
            p.update(p.len() - 1, p.last().push(c))
        }
    }
}

/// What parsing a path string yields: absolute iff it starts with the
/// separator, with its component runs as the parts.
pub open spec fn parse_spec(s: Seq<char>) -> PathModel {
    PathModel { absolute: s.len() > 0 && s[0] == '/', parts: parts_of(s) }
}

/// Rendered form of the components alone: joined by single separators.
pub open spec fn render_parts(parts: Seq<Seq<char>>) -> Seq<char>
    decreases parts.len(),
{
    if parts.len() == 0 {
        Seq::<char>::empty()
    } else if parts.len() == 1 {
        parts[0]
    } else {
        render_parts(parts.drop_last()) + seq!['/'] + parts.last()
    }
}

/// Rendered form of a path: a leading separator when absolute, then the
/// components joined by single separators.
pub open spec fn render_spec(p: PathModel) -> Seq<char> {
    (if p.absolute {
        seq!['/']
    } else {
        Seq::<char>::empty()
    }) + render_parts(p.parts)
}

/// A maximal separator-free run `s[a..b)` forms exactly one new component.
pub proof fn lemma_parts_of_run(s: Seq<char>, a: int, b: int)
    requires
        0 <= a < b <= s.len(),
        forall|m: int| a <= m < b ==> s[m] != '/',
        a == 0 || s[a - 1] == '/',
    ensures
        parts_of(s.subrange(0, b)) == parts_of(s.subrange(0, a)).push(s.subrange(a, b)),
    decreases b - a,
{
    let sb = s.subrange(0, b);
    assert(sb.drop_last() =~= s.subrange(0, b - 1));
    assert(sb.last() == s[b - 1]);
    if b == a + 1 {
        let head = s.subrange(0, a);
        if a > 0 {
            assert(head.last() == s[a - 1]);
        }
        assert(seq![s[a]] =~= s.subrange(a, b));
    } else {
        lemma_parts_of_run(s, a, b - 1);
        let head = s.subrange(0, b - 1);
        assert(head.last() == s[b - 2]);
        let p = parts_of(head);
        assert(p.last() == s.subrange(a, b - 1));
        assert(p.last().push(s[b - 1]) =~= s.subrange(a, b));
        assert(p.update(p.len() - 1, s.subrange(a, b)) =~= parts_of(s.subrange(0, a)).push(
            s.subrange(a, b),
        ));
    }
}

/// A well-formed component: nonempty and free of the separator.
pub open spec fn part_ok(p: Seq<char>) -> bool {
    p.len() > 0 && forall|j: int| 0 <= j < p.len() ==> p[j] != '/'
}

/// Every component a path string parses to is well-formed, and a string
/// ending in a non-separator character has at least one.
pub proof fn lemma_parts_of_wf(s: Seq<char>)
    ensures
        forall|i: int| 0 <= i < parts_of(s).len() ==> part_ok(#[trigger] parts_of(s)[i]),
        (s.len() > 0 && s.last() != '/') ==> parts_of(s).len() > 0,
    decreases s.len(),
{
    if s.len() == 0 {
    } else {
        lemma_parts_of_wf(s.drop_last());
        let head = s.drop_last();
        let c = s.last();
        let p = parts_of(head);
        if c == '/' {
        } else if head.len() == 0 || head.last() == '/' {
            assert(part_ok(seq![c]));
        } else {
            assert(head.last() != '/');
            assert(p.len() > 0);
            let grown = p.last().push(c);
            assert(part_ok(grown));
        }
    }
}

/// A leading separator adds no component.
proof fn lemma_parts_of_prepend_slash(x: Seq<char>)
    ensures
        parts_of(seq!['/'] + x) == parts_of(x),
    decreases x.len(),
{
    let s = seq!['/'] + x;
    if x.len() == 0 {
        assert(s =~= seq!['/']);
        assert(s.len() == 1 && s.last() == '/');
        assert(s.drop_last() =~= Seq::<char>::empty());
        assert(parts_of(s) == parts_of(s.drop_last()));
        assert(parts_of(s) =~= parts_of(x));
    } else {
        lemma_parts_of_prepend_slash(x.drop_last());
        let head = x.drop_last();
        let headp = s.drop_last();
        assert(headp =~= seq!['/'] + head);
        assert(s.last() == x.last());
        assert(parts_of(headp) == parts_of(head));
        if x.last() == '/' {
            assert(parts_of(s) == parts_of(headp));
            assert(parts_of(x) == parts_of(head));
        } else {
            assert(headp.len() > 0);
            if head.len() == 0 {
                assert(headp.last() == '/');
                assert(parts_of(s) == parts_of(headp).push(seq![s.last()]));
                assert(parts_of(x) == parts_of(head).push(seq![x.last()]));
            } else {
                assert(headp.last() == head.last());
                if head.last() == '/' {
                    assert(parts_of(s) == parts_of(headp).push(seq![s.last()]));
                    assert(parts_of(x) == parts_of(head).push(seq![x.last()]));
                } else {
                    let p = parts_of(head);
                    assert(parts_of(s) == p.update(p.len() - 1, p.last().push(s.last())));
                    assert(parts_of(x) == p.update(p.len() - 1, p.last().push(x.last())));
                }
            }
        }
    }
}

/// Rendering components and parsing them back is the identity, for
/// well-formed components.
proof fn lemma_parts_of_render(parts: Seq<Seq<char>>)
    requires
        forall|i: int| 0 <= i < parts.len() ==> part_ok(#[trigger] parts[i]),
    ensures
        parts_of(render_parts(parts)) == parts,
    decreases parts.len(),
{
    if parts.len() == 0 {
        assert(parts_of(render_parts(parts)) =~= parts);
    } else if parts.len() == 1 {
        let y = parts[0];
        assert(part_ok(y));
        lemma_parts_of_run(y, 0, y.len() as int);
        assert(y.subrange(0, y.len() as int) =~= y);
        assert(y.subrange(0, 0) =~= Seq::<char>::empty());
        assert(parts_of(y) =~= parts);
    } else {
        let x = render_parts(parts.drop_last());
        let y = parts.last();
        let s = x + seq!['/'] + y;
        assert(part_ok(y));
        lemma_parts_of_render(parts.drop_last());
        let a = x.len() as int + 1;
        let b = s.len() as int;
        assert(forall|m: int| a <= m < b ==> s[m] == y[m - a] && s[m] != '/');
        assert(s[a - 1] == '/');
        lemma_parts_of_run(s, a, b);
        assert(s.subrange(0, b) =~= s);
        assert(s.subrange(a, b) =~= y);
        assert(s.subrange(0, a) =~= x + seq!['/']);
        assert((x + seq!['/']).drop_last() =~= x);
        assert(parts_of(x + seq!['/']) == parts_of(x));
        assert(parts_of(s) == parts.drop_last().push(y));
        assert(parts.drop_last().push(y) =~= parts);
    }
}

/// The first rendered character of a nonempty component list is the first
/// character of its first component.
proof fn lemma_render_parts_first(parts: Seq<Seq<char>>)
    requires
        parts.len() > 0,
        parts[0].len() > 0,
    ensures
        render_parts(parts).len() > 0,
        render_parts(parts)[0] == parts[0][0],
    decreases parts.len(),
{
    if parts.len() == 1 {
    } else {
        lemma_render_parts_first(parts.drop_last());
        assert(parts.drop_last()[0] == parts[0]);
        let x = render_parts(parts.drop_last());
        assert((x + seq!['/'] + parts.last())[0] == x[0]);
    }
}

/// Round trip: rendering a path of well-formed components and parsing the
/// result yields the path again.
pub proof fn lemma_render_parse_round_trip(p: PathModel)
    requires
        forall|i: int| 0 <= i < p.parts.len() ==> part_ok(#[trigger] p.parts[i]),
    ensures
        parse_spec(render_spec(p)) == p,
{
    let rp = render_parts(p.parts);
    lemma_parts_of_render(p.parts);
    if p.absolute {
        let s = seq!['/'] + rp;
        assert(render_spec(p) =~= s);
        assert(s[0] == '/');
        lemma_parts_of_prepend_slash(rp);
        assert(parse_spec(s) =~= p);
    } else {
        assert(render_spec(p) =~= rp);
        if p.parts.len() == 0 {
            assert(rp.len() == 0);
            assert(parse_spec(rp) =~= p);
        } else {
            assert(part_ok(p.parts[0]));
            lemma_render_parts_first(p.parts);
            assert(rp[0] == p.parts[0][0]);
            assert(rp[0] != '/');
            assert(parse_spec(rp) =~= p);
        }
    }
}

/// Parse a path string into its components.
pub fn parse_path(s: &str) -> (r: NodePath)
    ensures
        r@ == parse_spec(s@),
{
    let n = s.unicode_len();
    let absolute = if n > 0 {
        s.get_char(0) == '/'
    } else {
        false
    };
    let mut parts: Vec<String> = Vec::new();
    let mut i: usize = 0;
    proof {
        assert(s@.subrange(0, 0) =~= Seq::<char>::empty());
        assert(parts@.map_values(|t: String| t@) =~= parts_of(s@.subrange(0, 0)));
    }
    while i < n
        invariant
            i <= n,
            n == s@.len(),
            parts@.map_values(|t: String| t@) == parts_of(s@.subrange(0, i as int)),
            i == 0 || i == n || s@[i - 1] == '/' || s@[i as int] == '/',
        decreases n - i,
    {
        let c = s.get_char(i);
        if c == '/' {
            proof {
                assert(s@.subrange(0, i + 1).drop_last() =~= s@.subrange(0, i as int));
                assert(s@.subrange(0, i + 1).last() == s@[i as int]);
            }
            i = i + 1;
        } else {
            let start = i;
            let mut j = i + 1;
            while j < n && s.get_char(j) != '/'
                invariant
                    start < j <= n,
                    n == s@.len(),
                    forall|m: int| start <= m < j ==> s@[m] != '/',
                decreases n - j,
            {
                j = j + 1;
            }
            let part = s.substring_char(start, j);
            parts.push(String::from_str(part));
            proof {
                lemma_parts_of_run(s@, start as int, j as int);
                assert(parts@.map_values(|t: String| t@) =~= parts_of(s@.subrange(0, j as int)));
            }
            i = j;
        }
    }
    proof {
        assert(s@.subrange(0, n as int) =~= s@);
    }
    let r = NodePath { absolute, parts };
    proof {
        assert(r@ =~= parse_spec(s@));
    }
    r
}

/// Path-join: an absolute right-hand side replaces the accumulator.
pub open spec fn join_path(base: PathModel, rhs: PathModel) -> PathModel {
    if rhs.absolute {
        rhs
    } else {
        PathModel { absolute: base.absolute, parts: base.parts + rhs.parts }
    }
}

/// The containing directory: the path without its last component.
pub open spec fn parent_path(p: PathModel) -> PathModel {
    PathModel { absolute: p.absolute, parts: p.parts.drop_last() }
}

impl NodePath {
    /// The empty path: root when `absolute`, the empty relative path otherwise.
    pub fn empty(absolute: bool) -> (r: NodePath)
        ensures
            r@ == (PathModel { absolute, parts: Seq::<Seq<char>>::empty() }),
    {
        let r = NodePath { absolute, parts: Vec::new() };
        proof {
            assert(r@.parts =~= Seq::<Seq<char>>::empty());
            assert(r@ =~= (PathModel { absolute, parts: Seq::<Seq<char>>::empty() }));
        }
        r
    }

    /// An exact copy.
    pub fn dup(&self) -> (r: NodePath)
        ensures
            r@ == self@,
    {
        let mut parts: Vec<String> = Vec::new();
        let mut i: usize = 0;
        while i < self.parts.len()
            invariant
                i <= self.parts.len(),
                parts@.len() == i,
                forall|j: int| 0 <= j < i ==> parts@[j]@ == self.parts@[j]@,
            decreases self.parts.len() - i,
        {
            parts.push(self.parts[i].clone());
            i = i + 1;
        }
        let r = NodePath { absolute: self.absolute, parts };
        proof {
            assert(r@.parts =~= self@.parts);
            assert(r@ =~= self@);
        }
        r
    }

    /// Whether two paths are the same path.
    pub fn path_eq(&self, other: &NodePath) -> (r: bool)
        ensures
            r == (self@ == other@),
    {
        if self.absolute != other.absolute {
            return false;
        }
        if self.parts.len() != other.parts.len() {
            assert(self@.parts.len() != other@.parts.len());
            return false;
        }
        let mut i: usize = 0;
        while i < self.parts.len()
            invariant
                i <= self.parts.len(),
                self.parts.len() == other.parts.len(),
                self.absolute == other.absolute,
                forall|j: int| 0 <= j < i ==> self@.parts[j] == other@.parts[j],
            decreases self.parts.len() - i,
        {
            if !(self.parts[i] == other.parts[i]) {
                assert(self@.parts[i as int] != other@.parts[i as int]);
                return false;
            }
            i = i + 1;
        }
        proof {
            assert(self@.parts =~= other@.parts);
            assert(self@ =~= other@);
        }
        true
    }

    /// The containing directory, for a path with at least one component
    /// besides the root.
    pub fn parent(&self) -> (r: NodePath)
        requires
            self@.parts.len() > 0,
        ensures
            r@ == parent_path(self@),
    {
        let mut parts: Vec<String> = Vec::new();
        let last: usize = self.parts.len() - 1;
        let mut i: usize = 0;
        while i < last
            invariant
                i <= last,
                last == self.parts.len() - 1,
                parts@.len() == i,
                forall|j: int| 0 <= j < i ==> parts@[j]@ == self.parts@[j]@,
            decreases last - i,
        {
            parts.push(self.parts[i].clone());
            i = i + 1;
        }
        let r = NodePath { absolute: self.absolute, parts };
        proof {
            assert(r@.parts =~= self@.parts.drop_last());
            assert(r@ =~= parent_path(self@));
        }
        r
    }

    /// Join `rhs` onto `self` with native path-join semantics: an absolute
    /// `rhs` replaces `self` entirely.
    pub fn join(&self, rhs: &NodePath) -> (r: NodePath)
        ensures
            r@ == join_path(self@, rhs@),
    {
        if rhs.absolute {
            let r = rhs.dup();
            return r;
        }
        let mut parts: Vec<String> = Vec::new();
        let mut i: usize = 0;
        while i < self.parts.len()
            invariant
                i <= self.parts.len(),
                parts@.len() == i,
                forall|j: int| 0 <= j < i ==> parts@[j]@ == self.parts@[j]@,
            decreases self.parts.len() - i,
        {
            parts.push(self.parts[i].clone());
            i = i + 1;
        }
        let base_len: usize = self.parts.len();
        let mut k: usize = 0;
        while k < rhs.parts.len()
            invariant
                k <= rhs.parts.len(),
                base_len == self.parts.len(),
                parts@.len() == base_len + k,
                forall|j: int| 0 <= j < base_len ==> parts@[j]@ == self.parts@[j]@,
                forall|j: int| 0 <= j < k ==> parts@[base_len + j]@ == rhs.parts@[j]@,
            decreases rhs.parts.len() - k,
        {
            parts.push(rhs.parts[k].clone());
            k = k + 1;
        }
        let r = NodePath { absolute: self.absolute, parts };
        proof {
            assert(r@.parts =~= self@.parts + rhs@.parts);
            assert(r@ =~= join_path(self@, rhs@));
        }
        r
    }

    /// The prefix made of the first `k` listed components (the root of an
    /// absolute path is kept and not counted here).
    pub fn take_parts(&self, k: usize) -> (r: NodePath)
        requires
            k <= self@.parts.len(),
        ensures
            r@ == (PathModel { absolute: self@.absolute, parts: self@.parts.subrange(0, k as int) }),
    {
        let mut parts: Vec<String> = Vec::new();
        let mut i: usize = 0;
        while i < k
            invariant
                i <= k,
                k <= self.parts.len(),
                parts@.len() == i,
                forall|j: int| 0 <= j < i ==> parts@[j]@ == self.parts@[j]@,
            decreases k - i,
        {
            parts.push(self.parts[i].clone());
            i = i + 1;
        }
        let r = NodePath { absolute: self.absolute, parts };
        proof {
            assert(r@.parts =~= self@.parts.subrange(0, k as int));
            assert(r@ =~= (PathModel {
                absolute: self@.absolute,
                parts: self@.parts.subrange(0, k as int),
            }));
        }
        r
    }

    /// The path as a string: components joined by the separator, with a
    /// leading separator when absolute.
    pub fn render(&self) -> (r: String)
        ensures
            r@ == render_spec(self@),
    {
        let mut out = String::new();
        proof {
            reveal_strlit("/");
            assert("/"@ =~= seq!['/']);
        }
        if self.absolute {
            out.append("/");
        }
        let ghost lead: Seq<char> = if self.absolute {
            seq!['/']
        } else {
            Seq::<char>::empty()
        };
        proof {
            assert(self@.parts.subrange(0, 0) =~= Seq::<Seq<char>>::empty());
            assert(out@ =~= lead + render_parts(self@.parts.subrange(0, 0)));
        }
        let mut i: usize = 0;
        while i < self.parts.len()
            invariant
                i <= self.parts.len(),
                lead == (if self@.absolute {
                    seq!['/']
                } else {
                    Seq::<char>::empty()
                }),
                out@ == lead + render_parts(self@.parts.subrange(0, i as int)),
            decreases self.parts.len() - i,
        {
            proof {
                reveal_strlit("/");
                assert("/"@ =~= seq!['/']);
            }
            if i > 0 {
                out.append("/");
            }
            out.append(self.parts[i].as_str());
            proof {
                let pre = self@.parts.subrange(0, i as int);
                let post = self@.parts.subrange(0, i + 1);
                assert(post.drop_last() =~= pre);
                assert(post.last() == self@.parts[i as int]);
                assert(out@ =~= lead + render_parts(post));
            }
            i = i + 1;
        }
        proof {
            assert(self@.parts.subrange(0, self.parts.len() as int) =~= self@.parts);
        }
        out
    }

    /// The relative path made of the listed components from index `k` on.
    pub fn parts_from(&self, k: usize) -> (r: NodePath)
        requires
            k <= self@.parts.len(),
        ensures
            r@ == (PathModel {
                absolute: false,
                parts: self@.parts.subrange(k as int, self@.parts.len() as int),
            }),
    {
        let mut parts: Vec<String> = Vec::new();
        let mut i: usize = k;
        while i < self.parts.len()
            invariant
                k <= i <= self.parts.len(),
                parts@.len() == i - k,
                forall|j: int| 0 <= j < i - k ==> parts@[j]@ == self.parts@[k + j]@,
            decreases self.parts.len() - i,
        {
            parts.push(self.parts[i].clone());
            i = i + 1;
        }
        let r = NodePath { absolute: false, parts };
        proof {
            assert(r@.parts =~= self@.parts.subrange(k as int, self@.parts.len() as int));
            assert(r@ =~= (PathModel {
                absolute: false,
                parts: self@.parts.subrange(k as int, self@.parts.len() as int),
            }));
        }
        r
    }
}

} // verus!
