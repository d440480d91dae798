//! Resolution of an untrusted relative path against a plugin's root.
//!
//! A candidate is first resolved lexically; one that leaves the root is
//! refused before the filesystem is asked anything. Otherwise the resolver
//! asks for the canonical form of the joined path. Where that exists, it must
//! lie in the root. Where nothing exists there yet, the resolver walks up the
//! lexical target and asks for each ancestor in turn: the first one that
//! exists must lie in the root (an ancestor may be a link that points
//! elsewhere), and the names below it are kept as they are.
//!
//! What is accepted holds at the moment of the answers: a link created
//! between resolution and use is not seen.
use vstd::prelude::*;

use crate::error::IpcError;
use crate::path::{
    all_names, lemma_pieces_have_no_slash, names_of, normalize, pieces, render, resolve_piece,
    split_pieces,
    within, AbsPath,
};

verus! {

/// What the filesystem reported when asked for the canonical form of a path.
#[derive(Debug)]
pub enum Probe {
    /// The path exists, and this is its canonical form.
    Found(AbsPath),
    /// Nothing exists at the path.
    Missing,
    /// The question failed for another reason; the message says why.
    Failed(String),
}

/// A path confined to a plugin's root: the root, and names below it.
#[derive(Debug)]
pub struct SafePath {
    base: AbsPath,
    relative: Vec<String>,
}

impl SafePath {
    #[verifier::type_invariant]
    closed spec fn inv(self) -> bool {
        all_names(names_of(self.relative@))
    }

    /// The root that this path is confined to.
    pub closed spec fn base(&self) -> Seq<Seq<char>> {
        self.base@
    }

    /// The names below the root; none for the root itself.
    pub closed spec fn relative(&self) -> Seq<Seq<char>> {
        names_of(self.relative@)
    }

    /// Where this path points.
    pub open spec fn absolute(&self) -> Seq<Seq<char>> {
        self.base() + self.relative()
    }

    /// The path `loc`, confined to `root`.
    fn new(root: AbsPath, loc: &AbsPath) -> (r: SafePath)
        requires
            within(root@, loc@),
        ensures
            r.base() == root@,
            r.absolute() == loc@,
    {
        let relative = loc.names_from(root.depth());
        assert(root@ + loc@.subrange(root@.len() as int, loc@.len() as int) =~= loc@);
        SafePath { base: root, relative }
    }

    /// The root that this path is confined to.
    pub fn root(&self) -> (r: &AbsPath)
        ensures
            r@ == self.base(),
    {
        &self.base
    }

    /// Whether this path is the root itself.
    pub fn is_root(&self) -> (r: bool)
        ensures
            r == (self.relative().len() == 0),
    {
        self.relative.len() == 0
    }

    /// Where this path points.
    pub fn to_path(&self) -> (r: AbsPath)
        ensures
            r@ == self.absolute(),
    {
        proof {
            use_type_invariant(self);
        }
        self.base.join_names(&self.relative)
    }

    /// The text of where this path points.
    pub fn to_text(&self) -> (r: String)
        ensures
            r@ == render(self.absolute()),
    {
        self.to_path().to_text()
    }

    /// The directory that holds this path; `None` for the root itself, whose
    /// parent lies outside it.
    pub fn parent(&self) -> (r: Option<AbsPath>)
        ensures
            self.relative().len() == 0 ==> r is None,
            self.relative().len() > 0 ==> (r matches Some(p) && p@ == self.absolute().drop_last()
                && within(self.base(), p@)),
    {
        if self.relative.len() == 0 {
            return None;
        }
        let full = self.to_path();
        let p = full.prefix(full.depth() - 1);
        assert(p@.subrange(0, self.base().len() as int) =~= self.base());
        Some(p)
    }
}

/// Whether a candidate is an absolute path text.
pub open spec fn is_absolute(cand: Seq<char>) -> bool {
    cand.len() > 0 && cand[0] == '/'
}

/// Where the candidate points once joined onto the root and resolved
/// lexically. An absolute candidate replaces the root, as a join of paths does.
pub open spec fn lexical_target(root: Seq<Seq<char>>, cand: Seq<char>) -> Seq<Seq<char>> {
    normalize(
        if is_absolute(cand) {
            seq![]
        } else {
            root
        },
        pieces(cand),
    )
}

/// The text of the candidate joined onto the root, as handed to the filesystem.
pub open spec fn joined_text(root: Seq<Seq<char>>, cand: Seq<char>) -> Seq<char> {
    if is_absolute(cand) {
        cand
    } else {
        render(root) + if root.len() == 0 {
            cand
        } else {
            seq!['/'] + cand
        }
    }
}

/// A decision of the resolver.
pub enum Next {
    /// The candidate is accepted and points at this location.
    Accept(Seq<Seq<char>>),
    /// The candidate leaves the root.
    Deny,
    /// The filesystem failed with this message.
    Fail(Seq<char>),
    /// Ask for the canonical form of the candidate joined onto the root.
    AskWhole,
    /// Ask for the canonical form of the first `k` names of the lexical target.
    AskAncestor(nat),
}

/// How a resolution starts.
pub open spec fn start(root: Seq<Seq<char>>, cand: Seq<char>) -> Next {
    if cand.len() == 0 {
        Next::Accept(root)
    } else if !within(root, lexical_target(root, cand)) {
        Next::Deny
    } else {
        Next::AskWhole
    }
}

/// Go on with the ancestor of `k` names of the lexical target `lex`, or, at
/// the root, accept the target.
pub open spec fn continue_at(root: Seq<Seq<char>>, lex: Seq<Seq<char>>, k: int) -> Next {
    if k <= root.len() {
        Next::Accept(lex)
    } else {
        Next::AskAncestor(k as nat)
    }
}

/// What the resolver decides on an answer of the filesystem, while it waits
/// for the whole path (`probing` is `None`) or for the ancestor of `k` names.
pub open spec fn after(
    root: Seq<Seq<char>>,
    lex: Seq<Seq<char>>,
    probing: Option<nat>,
    ev: Probe,
) -> Next {
    match ev {
        Probe::Found(c) => if !within(root, c@) {
            Next::Deny
        } else {
            match probing {
                None => Next::Accept(c@),
                Some(k) => Next::Accept(c@ + lex.subrange(k as int, lex.len() as int)),
            }
        },
        Probe::Missing => match probing {
            None => continue_at(root, lex, lex.len() - 1),
            Some(k) => continue_at(root, lex, k - 1),
        },
        Probe::Failed(m) => Next::Fail(m@),
    }
}

enum Stage {
    Whole,
    Ancestor(usize),
}

/// A resolution that waits for an answer of the filesystem.
pub struct Resolver {
    root: AbsPath,
    candidate: String,
    lexical: AbsPath,
    stage: Stage,
}

/// Either a question to the filesystem, with the resolver that waits for its
/// answer, or the end of a resolution.
pub enum Resolution {
    /// Report the canonical form of the path with this text.
    Probe(Resolver, String),
    Done(Result<SafePath, IpcError>),
}

/// `r` carries out the decision `n` of a resolution of `cand` against `root`
/// with the lexical target `lex`.
pub open spec fn carries_out(
    r: Resolution,
    root: Seq<Seq<char>>,
    cand: Seq<char>,
    lex: Seq<Seq<char>>,
    n: Next,
) -> bool {
    match n {
        Next::Accept(loc) => r matches Resolution::Done(Ok(sp)) && sp.base() == root
            && sp.absolute() == loc,
        Next::Deny => r matches Resolution::Done(Err(IpcError::PathPermissionDenied(m))) && m@
            == cand,
        Next::Fail(msg) => r matches Resolution::Done(Err(IpcError::Io(m))) && m@ == msg,
        Next::AskWhole => r matches Resolution::Probe(s, text) && s.root() == root
            && s.candidate() == cand && s.lexical() == lex && s.probing() is None && text@
            == joined_text(root, cand),
        Next::AskAncestor(k) => r matches Resolution::Probe(s, text) && s.root() == root
            && s.candidate() == cand && s.lexical() == lex && s.probing() == Some(k) && text@
            == render(lex.subrange(0, k as int)),
    }
}

impl Resolver {
    #[verifier::type_invariant]
    closed spec fn inv(self) -> bool {
        &&& within(self.root@, self.lexical@)
        &&& self.stage matches Stage::Ancestor(k) ==> self.root@.len() < k < self.lexical@.len()
    }

    /// The root that the candidate is resolved against.
    pub closed spec fn root(&self) -> Seq<Seq<char>> {
        self.root@
    }

    /// The candidate as the front-end gave it.
    pub closed spec fn candidate(&self) -> Seq<char> {
        self.candidate@
    }

    /// The lexical target of the candidate.
    pub closed spec fn lexical(&self) -> Seq<Seq<char>> {
        self.lexical@
    }

    /// `None` while the whole joined path is asked for; `Some(k)` while the
    /// ancestor of `k` names of the lexical target is.
    pub closed spec fn probing(&self) -> Option<nat> {
        match self.stage {
            Stage::Whole => None,
            Stage::Ancestor(k) => Some(k as nat),
        }
    }

    /// Takes the answer of the filesystem to the question the resolver asked.
    pub fn next(self, answer: Probe) -> (r: Resolution)
        ensures
            carries_out(
                r,
                self.root(),
                self.candidate(),
                self.lexical(),
                after(self.root(), self.lexical(), self.probing(), answer),
            ),
    {
        proof {
            use_type_invariant(&self);
        }
        let ghost lex = self.lexical@;
        let Resolver { root, candidate, lexical, stage } = self;
        match answer {
            Probe::Found(c) => {
                if !root.contains(&c) {
                    return Resolution::Done(Err(IpcError::PathPermissionDenied(candidate)));
                }
                match stage {
                    Stage::Whole => Resolution::Done(Ok(SafePath::new(root, &c))),
                    Stage::Ancestor(k) => {
                        let loc = c.join_names(&lexical.names_from(k));
                        assert(loc@.subrange(0, root@.len() as int) =~= c@.subrange(
                            0,
                            root@.len() as int,
                        ));
                        Resolution::Done(Ok(SafePath::new(root, &loc)))
                    },
                }
            },
            Probe::Missing => {
                let k = match stage {
                    Stage::Whole => lexical.depth(),
                    Stage::Ancestor(k) => k,
                };
                if k == 0 || k - 1 <= root.depth() {
                    return Resolution::Done(Ok(SafePath::new(root, &lexical)));
                }
                let below = k - 1;
                let text = lexical.prefix(below).to_text();
                Resolution::Probe(
                    Resolver { root, candidate, lexical, stage: Stage::Ancestor(below) },
                    text,
                )
            },
            Probe::Failed(m) => Resolution::Done(Err(IpcError::Io(m))),
        }
    }
}

/// Starts the resolution of the untrusted path `candidate` against `root`,
/// the canonical root of a plugin.
pub fn create_path(root: AbsPath, candidate: &str) -> (r: Resolution)
    ensures
        carries_out(r, root@, candidate@, lexical_target(root@, candidate@), start(root@, candidate@)),
{
    if candidate.unicode_len() == 0 {
        let here = root.clone();
        assert(root@.subrange(0, root@.len() as int) =~= root@);
        return Resolution::Done(Ok(SafePath::new(root, &here)));
    }
    let ps = split_pieces(candidate);
    proof {
        lemma_pieces_have_no_slash(candidate@);
    }
    let absolute = candidate.get_char(0) == '/';
    let lexical = if absolute {
        AbsPath::filesystem_root().resolve(&ps)
    } else {
        root.resolve(&ps)
    };
    if !root.contains(&lexical) {
        return Resolution::Done(Err(IpcError::PathPermissionDenied(String::from_str(candidate))));
    }
    let text = if absolute {
        String::from_str(candidate)
    } else if root.depth() == 0 {
        root.to_text().concat(candidate)
    } else {
        proof {
            reveal_strlit("/");
        }
        let mut t = root.to_text();
        t.append("/");
        t.append(candidate);
        assert(t@ =~= joined_text(root@, candidate@));
        t
    };
    Resolution::Probe(
        Resolver { root, candidate: String::from_str(candidate), lexical, stage: Stage::Whole },
        text,
    )
}

/// The decision reached from `n` once the filesystem gave `answers`, one
/// for each question asked; answers beyond the last question are not read.
pub open spec fn settle(
    root: Seq<Seq<char>>,
    lex: Seq<Seq<char>>,
    n: Next,
    answers: Seq<Probe>,
) -> Next
    decreases answers.len(),
{
    if answers.len() == 0 {
        n
    } else {
        match n {
            Next::AskWhole => settle(root, lex, after(root, lex, None, answers[0]), answers.drop_first()),
            Next::AskAncestor(k) => settle(
                root,
                lex,
                after(root, lex, Some(k), answers[0]),
                answers.drop_first(),
            ),
            _ => n,
        }
    }
}

/// `m` answers that nothing exists.
pub open spec fn all_missing(m: nat) -> Seq<Probe> {
    Seq::new(m, |i: int| Probe::Missing)
}

/// A candidate whose lexical target leaves the root is refused at once,
/// before the filesystem is asked anything: it is never clamped to the root.
pub proof fn lemma_lexical_escape_denied(root: Seq<Seq<char>>, cand: Seq<char>)
    requires
        !within(root, lexical_target(root, cand)),
    ensures
        start(root, cand) == Next::Deny,
{
    if cand.len() == 0 {
        lemma_empty_candidate_is_root(root, cand);
        assert(root.subrange(0, root.len() as int) =~= root);
    }
}

/// A candidate that exists and whose canonical form lies in the root is
/// accepted, and points exactly at that canonical form.
pub proof fn lemma_canonical_inside_accepted(root: Seq<Seq<char>>, cand: Seq<char>, c: AbsPath)
    requires
        cand.len() > 0,
        within(root, lexical_target(root, cand)),
        within(root, c@),
    ensures
        start(root, cand) == Next::AskWhole,
        settle(root, lexical_target(root, cand), start(root, cand), seq![Probe::Found(c)])
            == Next::Accept(c@),
{
    let lex = lexical_target(root, cand);
    let answers = seq![Probe::Found(c)];
    assert(answers[0] == Probe::Found(c));
    assert(answers.drop_first() =~= Seq::<Probe>::empty());
    assert(after(root, lex, None, answers[0]) == Next::Accept(c@));
    assert(settle(root, lex, Next::Accept(c@), answers.drop_first()) == Next::Accept(c@));
}

proof fn lemma_missing_ancestors(root: Seq<Seq<char>>, lex: Seq<Seq<char>>, k: nat, m: nat)
    requires
        root.len() < k,
        m >= k - root.len(),
    ensures
        settle(root, lex, Next::AskAncestor(k), all_missing(m)) == Next::Accept(lex),
    decreases k,
{
    assert(all_missing(m).drop_first() =~= all_missing((m - 1) as nat));
    if k - 1 > root.len() {
        lemma_missing_ancestors(root, lex, (k - 1) as nat, (m - 1) as nat);
    } else {
        if m - 1 > 0 {
            assert(settle(root, lex, Next::Accept(lex), all_missing((m - 1) as nat)) == Next::Accept(
                lex,
            ));
        }
    }
}

/// A candidate whose lexical target lies in the root, where nothing below
/// the root exists on the way to it, is accepted and points at its lexical
/// target. It takes one answer for the whole path and one for each ancestor
/// between it and the root.
pub proof fn lemma_missing_target_accepted(root: Seq<Seq<char>>, cand: Seq<char>, m: nat)
    requires
        cand.len() > 0,
        within(root, lexical_target(root, cand)),
        m >= 1,
        m >= lexical_target(root, cand).len() - root.len(),
    ensures
        settle(root, lexical_target(root, cand), start(root, cand), all_missing(m)) == Next::Accept(
            lexical_target(root, cand),
        ),
{
    let lex = lexical_target(root, cand);
    assert(all_missing(m).drop_first() =~= all_missing((m - 1) as nat));
    if lex.len() - 1 > root.len() {
        lemma_missing_ancestors(root, lex, (lex.len() - 1) as nat, (m - 1) as nat);
    } else if m - 1 > 0 {
        assert(settle(root, lex, Next::Accept(lex), all_missing((m - 1) as nat)) == Next::Accept(
            lex,
        ));
    }
}

proof fn lemma_ancestor_found(
    root: Seq<Seq<char>>,
    lex: Seq<Seq<char>>,
    j: nat,
    k: nat,
    c: AbsPath,
)
    requires
        root.len() < k <= j < lex.len(),
        within(root, c@),
    ensures
        settle(
            root,
            lex,
            Next::AskAncestor(j),
            all_missing((j - k) as nat) + seq![Probe::Found(c)],
        ) == Next::Accept(c@ + lex.subrange(k as int, lex.len() as int)),
    decreases j - k,
{
    let answers = all_missing((j - k) as nat) + seq![Probe::Found(c)];
    if j == k {
        let loc = c@ + lex.subrange(k as int, lex.len() as int);
        assert(answers[0] == Probe::Found(c));
        assert(answers.drop_first() =~= Seq::<Probe>::empty());
        assert(after(root, lex, Some(j), answers[0]) == Next::Accept(loc));
        assert(settle(root, lex, Next::Accept(loc), answers.drop_first()) == Next::Accept(loc));
    } else {
        assert(answers[0] == Probe::Missing);
        assert(answers.drop_first() =~= all_missing((j - 1 - k) as nat) + seq![Probe::Found(c)]);
        lemma_ancestor_found(root, lex, (j - 1) as nat, k, c);
    }
}

/// A candidate whose lexical target lies in the root, that does not exist
/// yet but has an existing ancestor of `k` names below the root, is accepted
/// where the canonical form of that ancestor lies in the root: it points at
/// that canonical form followed by the names that do not exist yet.
pub proof fn lemma_existing_ancestor_accepted(
    root: Seq<Seq<char>>,
    cand: Seq<char>,
    k: nat,
    c: AbsPath,
)
    requires
        cand.len() > 0,
        within(root, lexical_target(root, cand)),
        root.len() < k < lexical_target(root, cand).len(),
        within(root, c@),
    ensures
        settle(
            root,
            lexical_target(root, cand),
            start(root, cand),
            all_missing((lexical_target(root, cand).len() - k) as nat) + seq![Probe::Found(c)],
        ) == Next::Accept(
            c@ + lexical_target(root, cand).subrange(k as int, lexical_target(root, cand).len() as int),
        ),
{
    let lex = lexical_target(root, cand);
    let answers = all_missing((lex.len() - k) as nat) + seq![Probe::Found(c)];
    assert(answers[0] == Probe::Missing);
    assert(answers.drop_first() =~= all_missing((lex.len() - 1 - k) as nat) + seq![Probe::Found(c)]);
    lemma_ancestor_found(root, lex, (lex.len() - 1) as nat, k, c);
}

/// A decision on the way to a resolution, that keeps to the root.
pub open spec fn keeps_inside(root: Seq<Seq<char>>, lex: Seq<Seq<char>>, n: Next) -> bool {
    match n {
        Next::Accept(loc) => within(root, loc),
        Next::AskAncestor(k) => root.len() < k <= lex.len(),
        _ => true,
    }
}

proof fn lemma_settle_keeps_inside(
    root: Seq<Seq<char>>,
    lex: Seq<Seq<char>>,
    n: Next,
    answers: Seq<Probe>,
)
    requires
        within(root, lex),
        keeps_inside(root, lex, n),
    ensures
        keeps_inside(root, lex, settle(root, lex, n, answers)),
    decreases answers.len(),
{
    if answers.len() > 0 {
        let probing = match n {
            Next::AskAncestor(k) => Some(k),
            _ => None,
        };
        let next = after(root, lex, probing, answers[0]);
        if let Probe::Found(c) = answers[0] {
            if within(root, c@) {
                if let Some(k) = probing {
                    let loc = c@ + lex.subrange(k as int, lex.len() as int);
                    assert(loc.subrange(0, root.len() as int) =~= c@.subrange(0, root.len() as int));
                }
            }
        }
        if n is AskWhole || n is AskAncestor {
            lemma_settle_keeps_inside(root, lex, next, answers.drop_first());
        }
    }
}

/// Whatever the filesystem answers, a resolution that accepts a candidate
/// accepts a location in the root, and only where the candidate's lexical
/// target lies in the root too.
pub proof fn lemma_accepted_inside(root: Seq<Seq<char>>, cand: Seq<char>, answers: Seq<Probe>)
    ensures
        settle(root, lexical_target(root, cand), start(root, cand), answers) matches Next::Accept(
            loc,
        ) ==> within(root, loc) && within(root, lexical_target(root, cand)),
{
    let lex = lexical_target(root, cand);
    assert(root.subrange(0, root.len() as int) =~= root);
    if cand.len() == 0 {
        lemma_empty_candidate_is_root(root, cand);
        if answers.len() > 0 {
            assert(settle(root, lex, start(root, cand), answers) == Next::Accept(root));
        }
    } else if within(root, lex) {
        lemma_settle_keeps_inside(root, lex, start(root, cand), answers);
    } else if answers.len() > 0 {
        assert(settle(root, lex, start(root, cand), answers) == Next::Deny);
    }
}

proof fn lemma_empty_candidate_is_root(root: Seq<Seq<char>>, cand: Seq<char>)
    requires
        cand.len() == 0,
    ensures
        lexical_target(root, cand) == root,
{
    let ps = pieces(cand);
    assert(ps == seq![Seq::<char>::empty()]);
    assert(ps[0] == Seq::<char>::empty());
    assert(resolve_piece(root, ps[0]) == root);
    assert(ps.drop_first() =~= Seq::<Seq<char>>::empty());
    assert(normalize(root, ps.drop_first()) == root);
}

} // verus!
