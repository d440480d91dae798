//! Absolute paths as sequences of names, and the lexical rules on them.
//!
//! A path text is cut at each `/` into pieces. Lexical resolution walks the
//! pieces from a starting directory: an empty piece and `.` stay, `..` goes
//! up one level (never above the filesystem root), any other piece goes down.
//!
//! The model is that of POSIX paths: one root, `/` as the only separator.
//! A path with a drive or share prefix, as on Windows, is not absolute here.
use vstd::prelude::*;

verus! {

/// The views of a sequence of strings.
pub open spec fn names_of(v: Seq<String>) -> Seq<Seq<char>> {
    v.map_values(|s: String| s@)
}

/// A piece that names an entry: not empty, not `.` or `..`, without `/`.
pub open spec fn is_name(c: Seq<char>) -> bool {
    &&& c.len() > 0
    &&& c != seq!['.']
    &&& c != seq!['.', '.']
    &&& !c.contains('/')
}

pub open spec fn all_names(p: Seq<Seq<char>>) -> bool {
    forall|i: int| 0 <= i < p.len() ==> is_name(#[trigger] p[i])
}

pub open spec fn no_slash(p: Seq<Seq<char>>) -> bool {
    forall|i: int| 0 <= i < p.len() ==> !(#[trigger] p[i]).contains('/')
}

/// The pieces of `s` cut at each `/`, the first of them starting with `cur`.
pub open spec fn pieces_from(s: Seq<char>, cur: Seq<char>) -> Seq<Seq<char>>
    decreases s.len(),
{
    if s.len() == 0 {
        seq![cur]
    } else if s[0] == '/' {
        seq![cur] + pieces_from(s.drop_first(), seq![])
    } else {
        pieces_from(s.drop_first(), cur.push(s[0]))
    }
}

/// The pieces of a path text: `"a//b/"` has the pieces `a`, ``, `b`, ``.
pub open spec fn pieces(s: Seq<char>) -> Seq<Seq<char>> {
    pieces_from(s, seq![])
}

/// One step of lexical resolution from the directory `at`.
pub open spec fn resolve_piece(at: Seq<Seq<char>>, p: Seq<char>) -> Seq<Seq<char>> {
    if p.len() == 0 || p == seq!['.'] {
        at
    } else if p == seq!['.', '.'] {
        if at.len() == 0 {
            at
        } else {
            at.drop_last()
        }
    } else {
        at.push(p)
    }
}

/// Lexical resolution of the pieces `ps`, one after the other, from `at`.
pub open spec fn normalize(at: Seq<Seq<char>>, ps: Seq<Seq<char>>) -> Seq<Seq<char>>
    decreases ps.len(),
{
    if ps.len() == 0 {
        at
    } else {
        normalize(resolve_piece(at, ps[0]), ps.drop_first())
    }
}

/// `/` followed by each name, the names separated by `/`.
pub open spec fn join_names(c: Seq<Seq<char>>) -> Seq<char>
    decreases c.len(),
{
    if c.len() == 0 {
        seq![]
    } else {
        join_names(c.drop_last()) + seq!['/'] + c.last()
    }
}

/// The text of an absolute path.
pub open spec fn render(c: Seq<Seq<char>>) -> Seq<char> {
    if c.len() == 0 {
        seq!['/']
    } else {
        join_names(c)
    }
}

/// `p` is `root` or lies below it, compared name by name.
pub open spec fn within(root: Seq<Seq<char>>, p: Seq<Seq<char>>) -> bool {
    root.len() <= p.len() && p.subrange(0, root.len() as int) == root
}

proof fn lemma_pieces_no_slash(s: Seq<char>, cur: Seq<char>)
    requires
        !cur.contains('/'),
    ensures
        no_slash(pieces_from(s, cur)),
    decreases s.len(),
{
    if s.len() == 0 {
    } else if s[0] == '/' {
        lemma_pieces_no_slash(s.drop_first(), seq![]);
        let rest = pieces_from(s.drop_first(), seq![]);
        assert forall|i: int| 0 <= i < 1 + rest.len() implies !(#[trigger] (seq![cur]
            + rest)[i]).contains('/') by {
            if i > 0 {
                assert((seq![cur] + rest)[i] == rest[i - 1]);
            }
        }
    } else {
        assert forall|j: int| 0 <= j < cur.push(s[0]).len() implies cur.push(s[0])[j] != '/' by {
            if j < cur.len() {
                assert(cur.push(s[0])[j] == cur[j]);
            }
        }
        lemma_pieces_no_slash(s.drop_first(), cur.push(s[0]));
    }
}

proof fn lemma_normalize_names(at: Seq<Seq<char>>, ps: Seq<Seq<char>>)
    requires
        all_names(at),
        no_slash(ps),
    ensures
        all_names(normalize(at, ps)),
    decreases ps.len(),
{
    if ps.len() > 0 {
        let next = resolve_piece(at, ps[0]);
        assert(!ps[0].contains('/'));
        assert(all_names(next)) by {
            if next.len() == at.len() + 1 {
                assert forall|i: int| 0 <= i < next.len() implies is_name(#[trigger] next[i]) by {
                    if i < at.len() {
                        assert(next[i] == at[i]);
                    }
                }
            } else if next.len() + 1 == at.len() {
                assert forall|i: int| 0 <= i < next.len() implies is_name(#[trigger] next[i]) by {
                    assert(next[i] == at[i]);
                }
            }
        }
        assert forall|i: int| 0 <= i < ps.drop_first().len() implies !(
        #[trigger] ps.drop_first()[i]).contains('/') by {
            assert(ps.drop_first()[i] == ps[i + 1]);
        }
        lemma_normalize_names(next, ps.drop_first());
    }
}

/// The pieces of a path text.
pub fn split_pieces(s: &str) -> (r: Vec<String>)
    ensures
        names_of(r@) == pieces(s@),
{
    let n = s.unicode_len();
    let mut out: Vec<String> = Vec::new();
    let mut start: usize = 0;
    let mut i: usize = 0;
    proof {
        assert(s@.subrange(0, n as int) =~= s@);
        assert(s@.subrange(0, 0) =~= Seq::<char>::empty());
        assert(names_of(out@) + pieces(s@) =~= pieces(s@));
    }
    while i < n
        invariant
            n == s@.len(),
            start <= i <= n,
            names_of(out@) + pieces_from(s@.subrange(i as int, n as int), s@.subrange(
                start as int,
                i as int,
            )) == pieces(s@),
        decreases n - i,
    {
        let ghost t = s@.subrange(i as int, n as int);
        let ghost cur = s@.subrange(start as int, i as int);
        assert(t.drop_first() =~= s@.subrange(i + 1, n as int));
        assert(t[0] == s@[i as int]);
        if s.get_char(i) == '/' {
            let piece = String::from_str(s.substring_char(start, i));
            proof {
                let old_out = out@;
                assert(names_of(old_out.push(piece)) =~= names_of(old_out).push(cur));
                assert(names_of(old_out).push(cur) + pieces_from(s@.subrange(i + 1, n as int), seq![])
                    =~= names_of(old_out) + (seq![cur] + pieces_from(s@.subrange(i + 1, n as int), seq![])));
                assert(s@.subrange(i + 1, i + 1) =~= Seq::<char>::empty());
            }
            out.push(piece);
            start = i + 1;
        } else {
            assert(cur.push(s@[i as int]) =~= s@.subrange(start as int, i + 1));
        }
        i = i + 1;
    }
    let last = String::from_str(s.substring_char(start, n));
    proof {
        let cur = s@.subrange(start as int, n as int);
        assert(s@.subrange(n as int, n as int) =~= Seq::<char>::empty());
        assert(names_of(out@.push(last)) =~= names_of(out@) + seq![cur]);
    }
    out.push(last);
    out
}

/// Whether `p` is `.`.
fn is_dot(p: &str) -> (r: bool)
    ensures
        r == (p@ == seq!['.']),
{
    if p.unicode_len() != 1 {
        return false;
    }
    let r = p.get_char(0) == '.';
    assert(r ==> p@ =~= seq!['.']);
    r
}

/// Whether `p` is `..`.
fn is_dot_dot(p: &str) -> (r: bool)
    ensures
        r == (p@ == seq!['.', '.']),
{
    if p.unicode_len() != 2 {
        return false;
    }
    let r = p.get_char(0) == '.' && p.get_char(1) == '.';
    assert(r ==> p@ =~= seq!['.', '.']);
    r
}

/// Whether `p` names an entry (see `is_name`).
pub fn check_name(p: &str) -> (r: bool)
    ensures
        r == is_name(p@),
{
    let n = p.unicode_len();
    if n == 0 || is_dot(p) || is_dot_dot(p) {
        return false;
    }
    let mut i: usize = 0;
    while i < n
        invariant
            n == p@.len(),
            i <= n,
            forall|j: int| 0 <= j < i ==> p@[j] != '/',
        decreases n - i,
    {
        if p.get_char(i) == '/' {
            return false;
        }
        i = i + 1;
    }
    true
}

/// Resolves the pieces `ps` lexically, one after the other, from `at`.
fn normalize_onto(at: &mut Vec<String>, ps: &Vec<String>)
    ensures
        names_of(final(at)@) == normalize(names_of(old(at)@), names_of(ps@)),
{
    let n = ps.len();
    let mut i: usize = 0;
    proof {
        assert(names_of(ps@).subrange(0, n as int) =~= names_of(ps@));
    }
    while i < n
        invariant
            n == ps@.len(),
            i <= n,
            normalize(names_of(at@), names_of(ps@).subrange(i as int, n as int)) == normalize(
                names_of(old(at)@),
                names_of(ps@),
            ),
        decreases n - i,
    {
        let ghost rest = names_of(ps@).subrange(i as int, n as int);
        let ghost before = names_of(at@);
        assert(rest.drop_first() =~= names_of(ps@).subrange(i + 1, n as int));
        assert(rest[0] == ps@[i as int]@);
        let p = ps[i].as_str();
        if p.unicode_len() == 0 || is_dot(p) {
        } else if is_dot_dot(p) {
            if at.len() > 0 {
                at.pop();
                assert(names_of(at@) =~= before.drop_last());
            }
        } else {
            at.push(ps[i].clone());
            assert(names_of(at@) =~= before.push(rest[0]));
        }
        i = i + 1;
    }
    assert(names_of(ps@).subrange(n as int, n as int) =~= Seq::<Seq<char>>::empty());
}

/// The text of the path with the names `c`.
fn render_names(c: &Vec<String>) -> (r: String)
    ensures
        r@ == render(names_of(c@)),
{
    proof {
        reveal_strlit("/");
    }
    if c.len() == 0 {
        return String::from_str("/");
    }
    let n = c.len();
    let mut out = String::new();
    let mut i: usize = 0;
    while i < n
        invariant
            n == c@.len(),
            i <= n,
            out@ == join_names(names_of(c@).subrange(0, i as int)),
        decreases n - i,
    {
        proof {
            let prefix = names_of(c@).subrange(0, i + 1);
            assert(prefix.drop_last() =~= names_of(c@).subrange(0, i as int));
            assert(prefix.last() == c@[i as int]@);
        }
        proof {
            reveal_strlit("/");
            assert("/"@ =~= seq!['/']);
        }
        out.append("/");
        out.append(c[i].as_str());
        assert(out@ =~= join_names(names_of(c@).subrange(0, i + 1)));
        i = i + 1;
    }
    assert(names_of(c@).subrange(0, n as int) =~= names_of(c@));
    out
}

/// Whether `p` is `root` or lies below it.
fn starts_with(root: &Vec<String>, p: &Vec<String>) -> (r: bool)
    ensures
        r == within(names_of(root@), names_of(p@)),
{
    if root.len() > p.len() {
        return false;
    }
    let n = root.len();
    let mut i: usize = 0;
    while i < n
        invariant
            n == root@.len(),
            n <= p@.len(),
            i <= n,
            forall|j: int| 0 <= j < i ==> root@[j]@ == p@[j]@,
        decreases n - i,
    {
        if root[i] != p[i] {
            assert(names_of(p@).subrange(0, n as int)[i as int] != names_of(root@)[i as int]);
            return false;
        }
        i = i + 1;
    }
    assert(names_of(p@).subrange(0, n as int) =~= names_of(root@));
    true
}

/// An absolute path, held as the names from the filesystem root down.
#[derive(Debug)]
pub struct AbsPath {
    names: Vec<String>,
}

impl View for AbsPath {
    type V = Seq<Seq<char>>;

    closed spec fn view(&self) -> Seq<Seq<char>> {
        names_of(self.names@)
    }
}

impl Clone for AbsPath {
    fn clone(&self) -> (r: AbsPath)
        ensures
            r@ == self@,
    {
        proof {
            use_type_invariant(self);
        }
        let names = self.names.clone();
        assert(names_of(names@) =~= names_of(self.names@));
        AbsPath { names }
    }
}

impl AbsPath {
    #[verifier::type_invariant]
    closed spec fn inv(self) -> bool {
        all_names(self@)
    }

    /// Reads an absolute path text, resolving it lexically; `None` for a
    /// text that does not start with `/`.
    pub fn parse(text: &str) -> (r: Option<AbsPath>)
        ensures
            text@.len() > 0 && text@[0] == '/' ==> (r matches Some(p) && p@ == normalize(
                seq![],
                pieces(text@),
            )),
            !(text@.len() > 0 && text@[0] == '/') ==> r is None,
    {
        if text.unicode_len() == 0 || text.get_char(0) != '/' {
            return None;
        }
        let ps = split_pieces(text);
        let mut names: Vec<String> = Vec::new();
        normalize_onto(&mut names, &ps);
        proof {
            assert(names_of(Seq::<String>::empty()) =~= Seq::<Seq<char>>::empty());
            lemma_pieces_no_slash(text@, seq![]);
            lemma_normalize_names(seq![], pieces(text@));
        }
        Some(AbsPath { names })
    }

    /// The text of this path: `/` for the filesystem root, else `/` before each name.
    pub fn to_text(&self) -> (r: String)
        ensures
            r@ == render(self@),
    {
        render_names(&self.names)
    }

    /// Whether `other` is this path or lies below it.
    pub fn contains(&self, other: &AbsPath) -> (r: bool)
        ensures
            r == within(self@, other@),
    {
        starts_with(&self.names, &other.names)
    }

    /// The number of names in this path.
    pub fn depth(&self) -> (r: usize)
        ensures
            r == self@.len(),
    {
        self.names.len()
    }

    /// This path with one more name below it.
    pub fn child(&self, name: &str) -> (r: AbsPath)
        requires
            is_name(name@),
        ensures
            r@ == self@.push(name@),
    {
        proof {
            use_type_invariant(self);
        }
        let mut names = self.names.clone();
        proof {
            assert(names_of(names@) =~= names_of(self.names@));
        }
        names.push(String::from_str(name));
        assert(names_of(names@) =~= self@.push(name@));
        AbsPath { names }
    }
}


impl AbsPath {
    /// The filesystem root, `/`.
    pub fn filesystem_root() -> (r: AbsPath)
        ensures
            r@ == Seq::<Seq<char>>::empty(),
    {
        let names: Vec<String> = Vec::new();
        assert(names_of(names@) =~= Seq::<Seq<char>>::empty());
        AbsPath { names }
    }

    /// Lexical resolution of the pieces `ps` from this directory.
    pub fn resolve(&self, ps: &Vec<String>) -> (r: AbsPath)
        requires
            no_slash(names_of(ps@)),
        ensures
            r@ == normalize(self@, names_of(ps@)),
    {
        proof {
            use_type_invariant(self);
        }
        let mut names = self.names.clone();
        assert(names_of(names@) =~= names_of(self.names@));
        normalize_onto(&mut names, ps);
        proof {
            lemma_normalize_names(self@, names_of(ps@));
        }
        AbsPath { names }
    }

    /// The first `k` names of this path.
    pub fn prefix(&self, k: usize) -> (r: AbsPath)
        requires
            k <= self@.len(),
        ensures
            r@ == self@.subrange(0, k as int),
    {
        proof {
            use_type_invariant(self);
        }
        let mut names = self.names.clone();
        assert(names_of(names@) =~= names_of(self.names@));
        names.truncate(k);
        assert(names_of(names@) =~= self@.subrange(0, k as int));
        AbsPath { names }
    }

    /// The names of this path from position `from` on.
    pub fn names_from(&self, from: usize) -> (r: Vec<String>)
        requires
            from <= self@.len(),
        ensures
            names_of(r@) == self@.subrange(from as int, self@.len() as int),
            all_names(names_of(r@)),
    {
        proof {
            use_type_invariant(self);
        }
        let mut out: Vec<String> = Vec::new();
        let n = self.names.len();
        let mut i: usize = from;
        while i < n
            invariant
                n == self@.len(),
                from <= i <= n,
                names_of(out@) == self@.subrange(from as int, i as int),
            decreases n - i,
        {
            let x = self.names[i].clone();
            assert(x@ == self@[i as int]);
            let ghost before = out@;
            out.push(x);
            assert(names_of(out@) =~= names_of(before).push(x@));
            assert(names_of(out@) =~= self@.subrange(from as int, i + 1));
            i = i + 1;
        }
        proof {
            use_type_invariant(self);
            assert forall|j: int| 0 <= j < names_of(out@).len() implies is_name(
                #[trigger] names_of(out@)[j],
            ) by {
                assert(names_of(out@)[j] == self@[from + j]);
            }
        }
        out
    }

    /// This path followed by the names `more`.
    pub fn join_names(&self, more: &Vec<String>) -> (r: AbsPath)
        requires
            all_names(names_of(more@)),
        ensures
            r@ == self@ + names_of(more@),
    {
        proof {
            use_type_invariant(self);
        }
        let mut names = self.names.clone();
        assert(names_of(names@) =~= names_of(self.names@));
        let n = more.len();
        let mut i: usize = 0;
        while i < n
            invariant
                n == more@.len(),
                i <= n,
                all_names(self@),
                all_names(names_of(more@)),
                names_of(names@) == self@ + names_of(more@).subrange(0, i as int),
            decreases n - i,
        {
            let x = more[i].clone();
            assert(x@ == names_of(more@)[i as int]);
            let ghost before = names@;
            names.push(x);
            assert(names_of(names@) =~= names_of(before).push(x@));
            assert(names_of(names@) =~= self@ + names_of(more@).subrange(0, i + 1));
            i = i + 1;
        }
        assert(names_of(more@).subrange(0, n as int) =~= names_of(more@));
        assert(all_names(names_of(names@))) by {
            assert forall|j: int| 0 <= j < names_of(names@).len() implies is_name(
                #[trigger] names_of(names@)[j],
            ) by {
                if j < self@.len() {
                    assert(names_of(names@)[j] == self@[j]);
                } else {
                    assert(names_of(names@)[j] == names_of(more@)[j - self@.len()]);
                }
            }
        }
        AbsPath { names }
    }
}

/// A path text cut at each `/` has no `/` in its pieces.
pub proof fn lemma_pieces_have_no_slash(s: Seq<char>)
    ensures
        no_slash(pieces(s)),
{
    lemma_pieces_no_slash(s, seq![]);
}

} // verus!
