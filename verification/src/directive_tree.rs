use vstd::prelude::*;

use crate::lang::{ConditionalDirectiveKind, Token, TokenType};

verus! {

broadcast use vstd::std_specs::vec::group_vec_axioms;

/// One section of a directive tree: a contiguous run of tokens free of
/// conditional directives, or the ordered branches of one
/// `$if .. $else .. $endif` group. Token windows are `[lo, hi)`; every flat
/// section has a distinct identifier, by which a pass records it as explored.
pub enum Section {
    Flat { lo: usize, hi: usize, id: usize },
    Nested { lo: usize, hi: usize, idlo: usize, idhi: usize, branches: Vec<DirectiveTree> },
}

/// A record of where conditional directives split the token stream. Passes
/// are enumerated over it: each pass takes one branch at every nested
/// section.
pub struct DirectiveTree {
    pub lo: usize,
    pub hi: usize,
    pub idlo: usize,
    pub idhi: usize,
    pub sections: Vec<Section>,
}

pub open spec fn sec_lo(s: Section) -> int {
    match s {
        Section::Flat { lo, .. } => lo as int,
        Section::Nested { lo, .. } => lo as int,
    }
}

pub open spec fn sec_hi(s: Section) -> int {
    match s {
        Section::Flat { hi, .. } => hi as int,
        Section::Nested { hi, .. } => hi as int,
    }
}

pub open spec fn sec_idlo(s: Section) -> int {
    match s {
        Section::Flat { id, .. } => id as int,
        Section::Nested { idlo, .. } => idlo as int,
    }
}

pub open spec fn sec_idhi(s: Section) -> int {
    match s {
        Section::Flat { id, .. } => id + 1,
        Section::Nested { idhi, .. } => idhi as int,
    }
}

/// Well-formedness of a section against the token types: windows are ordered
/// and in bounds, flat runs hold no conditional directives, and the id
/// windows of sibling branches are disjoint.
pub open spec fn section_wf(s: Section, types: Seq<TokenType>) -> bool
    decreases s,
{
    match s {
        Section::Flat { lo, hi, id } => lo <= hi <= types.len() && forall|i: int|
            lo <= i < hi ==> !((#[trigger] types[i]) is ConditionalDirective),
        Section::Nested { lo, hi, idlo, idhi, branches } => lo <= hi <= types.len() && idlo <= idhi
            && branches.len() >= 1 && (forall|b: int|
            0 <= b < branches.len() ==> tree_wf(#[trigger] branches[b], types) && lo <= branches[b].lo
                && branches[b].hi <= hi && idlo <= branches[b].idlo && branches[b].idhi <= idhi)
            && (forall|b1: int, b2: int|
            0 <= b1 < b2 < branches.len() ==> (#[trigger] branches[b1]).idhi <= (
            #[trigger] branches[b2]).idlo),
    }
}

pub open spec fn tree_wf(t: DirectiveTree, types: Seq<TokenType>) -> bool
    decreases t,
{
    t.lo <= t.hi <= types.len() && t.idlo <= t.idhi && (forall|k: int|
        0 <= k < t.sections@.len() ==> section_wf(#[trigger] t.sections@[k], types) && t.lo <= sec_lo(
            t.sections@[k],
        ) && sec_hi(t.sections@[k]) <= t.hi && t.idlo <= sec_idlo(t.sections@[k]) && sec_idhi(
            t.sections@[k],
        ) <= t.idhi) && (forall|k1: int, k2: int|
        0 <= k1 < k2 < t.sections@.len() ==> sec_hi(#[trigger] t.sections@[k1]) <= sec_lo(
            #[trigger] t.sections@[k2],
        ) && sec_idhi(t.sections@[k1]) <= sec_idlo(t.sections@[k2]))
}

/// Token index `idx` lies in the flat section with identifier `id`.
pub open spec fn sec_has_flat(s: Section, id: int, idx: int) -> bool
    decreases s,
{
    match s {
        Section::Flat { lo, hi, id: fid } => fid == id && lo <= idx < hi,
        Section::Nested { branches, .. } => exists|b: int|
            0 <= b < branches.len() && tree_has_flat(#[trigger] branches[b], id, idx),
    }
}

pub open spec fn tree_has_flat(t: DirectiveTree, id: int, idx: int) -> bool
    decreases t,
{
    exists|k: int| 0 <= k < t.sections@.len() && sec_has_flat(#[trigger] t.sections@[k], id, idx)
}

/// Token index `idx` lies in some flat section of the tree.
pub open spec fn tree_has(t: DirectiveTree, idx: int) -> bool {
    exists|k: int| 0 <= k < t.sections@.len() && sec_has_flat_any(#[trigger] t.sections@[k], idx)
}

/// Every flat section of the tree is recorded as explored.
pub open spec fn sec_all_explored(s: Section, flags: Seq<bool>) -> bool
    decreases s,
{
    match s {
        Section::Flat { id, .. } => id < flags.len() && flags[id as int],
        Section::Nested { branches, .. } => forall|b: int|
            0 <= b < branches.len() ==> tree_all_explored(#[trigger] branches[b], flags),
    }
}

pub open spec fn tree_all_explored(t: DirectiveTree, flags: Seq<bool>) -> bool
    decreases t,
{
    forall|k: int| 0 <= k < t.sections@.len() ==> sec_all_explored(#[trigger] t.sections@[k], flags)
}

pub open spec fn spec_types_of(tokens: Seq<Token>) -> Seq<TokenType> {
    tokens.map_values(|t: Token| t.spec_type())
}

impl DirectiveTree {
    pub open spec fn spec_lo(&self) -> int {
        self.lo as int
    }

    pub open spec fn spec_hi(&self) -> int {
        self.hi as int
    }

    pub open spec fn spec_idhi(&self) -> int {
        self.idhi as int
    }

    /// Builds the directive tree of a token stream: flat sections split at
    /// every conditional directive, nested sections opened at each `$if`
    /// kind, closed at `$endif`/`$ifend`, with one branch per
    /// `$elseif`/`$else`. An unmatched `$else`/`$endif` at the top level is
    /// dropped. Every token that is not a conditional directive lies in some
    /// flat section.
    pub fn parse(tokens: &Vec<Token>) -> (r: DirectiveTree)
        requires
            4 * tokens@.len() + 4 <= usize::MAX,
        ensures
            tree_wf(r, spec_types_of(tokens@)),
            r.spec_lo() == 0,
            r.spec_hi() == tokens@.len(),
            0 <= r.spec_idhi(),
            forall|idx: int|
                0 <= idx < tokens@.len() && !((#[trigger] tokens@[idx].spec_type())
                    is ConditionalDirective) ==> tree_has(r, idx),
            (forall|idx: int|
                0 <= idx < tokens@.len() ==> !((#[trigger] tokens@[idx].spec_type())
                    is ConditionalDirective)) ==> r.sections@.len() == 1 && (r.sections@[0]
                matches Section::Flat { lo, hi, id } && lo == 0 && hi as int == tokens@.len() && id
                == 0),
    {
        let types = collect_types(tokens);
        let (tree, next, _cdk, _nid) = parse_next(&types, 0, 0, true);
        proof {
            assert(next == types@.len());
            assert forall|idx: int|
                0 <= idx < tokens@.len() && !((#[trigger] tokens@[idx].spec_type())
                    is ConditionalDirective) implies tree_has(tree, idx) by {
                assert(types@[idx] == tokens@[idx].spec_type());
            }
            if forall|idx: int|
                0 <= idx < tokens@.len() ==> !((#[trigger] tokens@[idx].spec_type())
                    is ConditionalDirective) {
                assert(forall|idx: int|
                    0 <= idx < types@.len() ==> #[trigger] types@[idx]
                        == tokens@[idx].spec_type());
                assert(forall|idx: int|
                    0 <= idx < types@.len() ==> !((#[trigger] types@[idx])
                        is ConditionalDirective));
            }
        }
        tree
    }

    /// Starts pass enumeration: no flat section is explored yet.
    pub fn passes(self, tokens: &Vec<Token>) -> (r: PassIter)
        requires
            tree_wf(self, spec_types_of(tokens@)),
            self.spec_idhi() >= 0,
        ensures
            r.wf(),
            r.spec_tree() == self,
            !r.spec_exhausted(),
            r.spec_flags().len() == self.spec_idhi(),
            forall|id: int| 0 <= id < r.spec_flags().len() ==> !r.spec_flags()[id],
            r.spec_types() == spec_types_of(tokens@),
    {
        let n = self.idhi;
        let mut flags: Vec<bool> = Vec::new();
        let mut k: usize = 0;
        while k < n
            invariant
                k <= n,
                flags@.len() == k,
                forall|i: int| 0 <= i < k ==> !flags@[i],
            decreases n - k,
        {
            flags.push(false);
            k = k + 1;
        }
        let ghost types = spec_types_of(tokens@);
        PassIter { tree: self, explored: flags, exhausted: false, types: Ghost(types) }
    }
}

fn collect_types(tokens: &Vec<Token>) -> (r: Vec<TokenType>)
    ensures
        r@ == spec_types_of(tokens@),
{
    let mut out: Vec<TokenType> = Vec::new();
    let mut i: usize = 0;
    while i < tokens.len()
        invariant
            i <= tokens@.len(),
            out@.len() == i,
            forall|j: int| 0 <= j < i ==> out@[j] == tokens@[j].spec_type(),
        decreases tokens@.len() - i,
    {
        out.push(tokens[i].get_token_type());
        i = i + 1;
    }
    proof {
        assert(out@ =~= spec_types_of(tokens@));
    }
    out
}

/// Scans the maximal run of non-conditional-directive tokens from `i`; the
/// run is `[i, r.0)`, and `r.1` is the kind of the conditional directive that
/// ended it (consumed: scanning resumes at `r.2`).
fn parse_flat(types: &Vec<TokenType>, i: usize) -> (r: (usize, Option<ConditionalDirectiveKind>,
    usize))
    requires
        i <= types@.len(),
    ensures
        i <= r.0 <= types@.len(),
        forall|j: int| i <= j < r.0 ==> !((#[trigger] types@[j]) is ConditionalDirective),
        r.1 is Some ==> r.0 < types@.len() && r.2 == r.0 + 1 && types@[r.0 as int]
            is ConditionalDirective,
        r.1 is None ==> r.0 == types@.len() && r.2 == r.0,
{
    let mut j: usize = i;
    loop
        invariant
            i <= j <= types@.len(),
            forall|k: int| i <= k < j ==> !((#[trigger] types@[k]) is ConditionalDirective),
        decreases types@.len() - j,
    {
        if j >= types.len() {
            return (j, None, j);
        }
        match types[j] {
            TokenType::ConditionalDirective(cdk) => {
                return (j, Some(cdk), j + 1);
            },
            _ => {
                j = j + 1;
            },
        }
    }
}

/// Parses a run of sections from `i` with flat identifiers from `nid` on,
/// stopping at a conditional directive that does not open a nested section
/// (at the top level such a directive is dropped and parsing continues).
fn parse_next(types: &Vec<TokenType>, i: usize, nid: usize, top_level: bool) -> (r: (
    DirectiveTree,
    usize,
    Option<ConditionalDirectiveKind>,
    usize,
))
    requires
        i <= types@.len(),
        nid + 4 * (types@.len() - i) + 4 <= usize::MAX,
    ensures
        tree_wf(r.0, types@),
        r.0.lo == i,
        r.0.hi == r.1,
        i <= r.1 <= types@.len(),
        r.0.idlo == nid,
        r.0.idhi == r.3,
        nid <= r.3,
        r.2 is None ==> r.1 == types@.len() && r.3 <= nid + 4 * (r.1 - i) + 3,
        r.2 is Some ==> r.1 >= i + 1 && r.3 <= nid + 4 * (r.1 - i) - 1,
        top_level ==> r.2 is None,
        forall|idx: int|
            i <= idx < r.1 && !((#[trigger] types@[idx]) is ConditionalDirective) ==> tree_has(
                r.0,
                idx,
            ),
        (forall|idx: int| i <= idx < types@.len() ==> !((#[trigger] types@[idx])
            is ConditionalDirective)) ==> r.0.sections@.len() == 1 && (r.0.sections@[0]
            matches Section::Flat { lo, hi, id } && lo == i && hi as int == types@.len() && id
            == nid),
    decreases types@.len() - i, 1int,
{
    let ghost ts = types@;
    let mut sections: Vec<Section> = Vec::new();
    let mut cur: usize = i;
    let mut id: usize = nid;
    loop
        invariant
            i <= cur <= ts.len(),
            nid <= id,
            types@ == ts,
            nid + 4 * (ts.len() - i) + 4 <= usize::MAX,
            id <= nid + 4 * (cur - i) + 2,
            forall|k: int|
                0 <= k < sections@.len() ==> section_wf(#[trigger] sections@[k], ts) && i <= sec_lo(
                    sections@[k],
                ) && sec_hi(sections@[k]) <= cur && nid <= sec_idlo(sections@[k]) && sec_idhi(
                    sections@[k],
                ) <= id,
            forall|k1: int, k2: int|
                0 <= k1 < k2 < sections@.len() ==> sec_hi(#[trigger] sections@[k1]) <= sec_lo(
                    #[trigger] sections@[k2],
                ) && sec_idhi(sections@[k1]) <= sec_idlo(sections@[k2]),
            forall|idx: int|
                i <= idx < cur && !((#[trigger] ts[idx]) is ConditionalDirective) ==> exists|k: int|
                    0 <= k < sections@.len() && sec_has_flat_any(#[trigger] sections@[k], idx),
            (forall|idx: int|
                i <= idx < ts.len() ==> !((#[trigger] ts[idx]) is ConditionalDirective))
                ==> sections@.len() == 0 && cur == i && id == nid,
        decreases ts.len() - cur,
    {
        let ghost cur0 = cur as int;
        let ghost secs0 = sections@;
        let (flat_end, cdk, next) = parse_flat(types, cur);
        let ghost fid = id as int;
        let ghost flo = cur as int;
        let ghost fpos = sections@.len() as int;
        let flat = Section::Flat { lo: cur, hi: flat_end, id };
        sections.push(flat);
        id = id + 1;
        cur = next;
        let mut stop = false;
        let mut out_cdk: Option<ConditionalDirectiveKind> = None;
        let ghost mut npos: int = -1;
        let ghost mut nlo: int = 0;
        match cdk {
            Some(k) => {
                if k.is_if() {
                    proof {
                        npos = sections@.len() as int;
                        nlo = cur as int;
                    }
                    let (nested, ncur, nidhi) = parse_nested(types, cur, id);
                    sections.push(nested);
                    cur = ncur;
                    id = nidhi;
                } else if top_level {
                    // an unmatched directive at the top level is dropped
                } else {
                    stop = true;
                    out_cdk = Some(k);
                }
            },
            None => {
                stop = true;
            },
        }
        proof {
            assert forall|idx: int|
                i <= idx < cur && !((#[trigger] ts[idx]) is ConditionalDirective)
                    implies exists|k: int|
                0 <= k < sections@.len() && sec_has_flat_any(#[trigger] sections@[k], idx) by {
                if idx < cur0 {
                    let k = choose|k: int|
                        0 <= k < secs0.len() && sec_has_flat_any(#[trigger] secs0[k], idx);
                    assert(sections@[k] == secs0[k]);
                    assert(sec_has_flat_any(sections@[k], idx));
                } else if idx < flat_end {
                    assert(sec_has_flat(sections@[fpos], fid, idx));
                    assert(sec_has_flat_any(sections@[fpos], idx));
                } else if npos >= 0 && nlo <= idx < cur {
                    assert(sec_has_flat_any(sections@[npos], idx));
                }
            }
        }
        if stop {
            let tree = DirectiveTree { lo: i, hi: cur, idlo: nid, idhi: id, sections };
            return (tree, cur, out_cdk, id);
        }
    }
}

/// Parses the branches of a nested section after its opening `$if` directive
/// was consumed: one branch per `$elseif`/`$else`, closed by any other
/// terminating directive (or the end of the input).
fn parse_nested(types: &Vec<TokenType>, i: usize, nid: usize) -> (r: (Section, usize, usize))
    requires
        i <= types@.len(),
        nid + 4 * (types@.len() - i) + 4 <= usize::MAX,
    ensures
        section_wf(r.0, types@),
        sec_lo(r.0) == i,
        sec_hi(r.0) == r.1,
        i <= r.1 <= types@.len(),
        sec_idlo(r.0) == nid,
        sec_idhi(r.0) == r.2,
        nid <= r.2,
        r.2 <= nid + 4 * (r.1 - i) + 3,
        forall|idx: int|
            i <= idx < r.1 && !((#[trigger] types@[idx]) is ConditionalDirective)
                ==> sec_has_flat_any(r.0, idx),
    decreases types@.len() - i, 2int,
{
    let ghost ts = types@;
    let (first, mut cur, mut cdk, mut id) = parse_next(types, i, nid, false);
    let mut branches: Vec<DirectiveTree> = vec![first];
    loop
        invariant
            i <= cur <= ts.len(),
            nid <= id,
            types@ == ts,
            nid + 4 * (ts.len() - i) + 4 <= usize::MAX,
            cdk is Some ==> id <= nid + 4 * (cur - i) - 1,
            cdk is None ==> id <= nid + 4 * (cur - i) + 3 && cur == ts.len(),
            branches@.len() >= 1,
            forall|b: int|
                0 <= b < branches@.len() ==> tree_wf(#[trigger] branches@[b], ts) && i <= branches@[b].lo
                    && branches@[b].hi <= cur && nid <= branches@[b].idlo && branches@[b].idhi <= id,
            forall|b1: int, b2: int|
                0 <= b1 < b2 < branches@.len() ==> (#[trigger] branches@[b1]).idhi <= (
                #[trigger] branches@[b2]).idlo,
            forall|idx: int|
                i <= idx < cur && !((#[trigger] ts[idx]) is ConditionalDirective) ==> exists|b: int|
                    0 <= b < branches@.len() && tree_has(#[trigger] branches@[b], idx),
        decreases ts.len() - cur, (if cdk is Some { 1int } else { 0int }),
    {
        let more = match cdk {
            Some(k) => k.is_else(),
            None => false,
        };
        if !more {
            let ghost brs = branches@;
            let sec = Section::Nested { lo: i, hi: cur, idlo: nid, idhi: id, branches };
            proof {
                assert forall|idx: int|
                    i <= idx < cur && !((#[trigger] ts[idx]) is ConditionalDirective)
                        implies sec_has_flat_any(sec, idx) by {
                    let b = choose|b: int| 0 <= b < brs.len() && tree_has(#[trigger] brs[b], idx);
                    lemma_tree_has_gives_id(brs[b], idx, ts);
                    let idd = choose|idd: int| tree_has_flat(brs[b], idd, idx);
                    assert(0 <= b < brs.len() && tree_has_flat(brs[b], idd, idx));
                    assert(sec->Nested_branches@ == brs);
                    assert(tree_has_flat(sec->Nested_branches@[b], idd, idx));
                    assert(sec_has_flat(sec, idd, idx));
                    assert(sec_has_flat_any(sec, idx));
                }
            }
            return (sec, cur, id);
        }
        let ghost cur0 = cur as int;
        let ghost brs0 = branches@;
        let (tree, ncur, next, nid2) = parse_next(types, cur, id, false);
        branches.push(tree);
        proof {
            assert forall|idx: int|
                i <= idx < ncur && !((#[trigger] ts[idx]) is ConditionalDirective)
                    implies exists|b: int|
                0 <= b < branches@.len() && tree_has(#[trigger] branches@[b], idx) by {
                if idx < cur0 {
                    let b = choose|b: int|
                        0 <= b < brs0.len() && tree_has(#[trigger] brs0[b], idx);
                    assert(branches@[b] == brs0[b]);
                    assert(tree_has(branches@[b], idx));
                } else if cur0 <= idx < ncur {
                    let b = branches@.len() - 1;
                    assert(tree_has(branches@[b], idx));
                }
            }
        }
        cur = ncur;
        cdk = next;
        id = nid2;
    }
}

/// Like `sec_has_flat` with the identifier abstracted away.
pub open spec fn sec_has_flat_any(s: Section, idx: int) -> bool {
    exists|id: int| sec_has_flat(s, id, idx)
}

/// `s` is a flat section whose window holds `idx`.
pub open spec fn sec_flat_window_has(s: Section, idx: int) -> bool {
    s matches Section::Flat { lo, hi, .. } && lo <= idx < hi
}


/// The branch a pass descends into: the first unexplored one, or the last
/// when every branch is explored.
pub open spec fn spec_chosen_branch(branches: Seq<DirectiveTree>, flags: Seq<bool>, b: int) -> int
    decreases branches.len() - b
        when 0 <= b <= branches.len()
{
    if b >= branches.len() {
        branches.len() - 1
    } else if !tree_all_explored(branches[b], flags) {
        b
    } else {
        spec_chosen_branch(branches, flags, b + 1)
    }
}

proof fn lemma_chosen_branch_bounds(branches: Seq<DirectiveTree>, flags: Seq<bool>, b: int)
    requires
        0 <= b <= branches.len(),
        branches.len() >= 1,
    ensures
        0 <= spec_chosen_branch(branches, flags, b) < branches.len(),
    decreases branches.len() - b,
{
    if b < branches.len() && tree_all_explored(branches[b], flags) {
        lemma_chosen_branch_bounds(branches, flags, b + 1);
    }
}

/// One pass over a section, as a specification: the emitted token indices and
/// the explored flags afterwards.
pub open spec fn spec_section_pass(s: Section, flags: Seq<bool>) -> (Seq<int>, Seq<bool>)
    decreases s, 0int, 0int
        via spec_section_pass_decreases
{
    match s {
        Section::Flat { lo, hi, id } => (
            Seq::new((hi - lo) as nat, |k: int| lo + k),
            flags.update(id as int, true),
        ),
        Section::Nested { branches, .. } => {
            if branches.len() == 0 {
                (Seq::empty(), flags)
            } else {
                spec_tree_pass(branches[spec_chosen_branch(branches@, flags, 0)], flags)
            }
        },
    }
}

#[via_fn]
proof fn spec_section_pass_decreases(s: Section, flags: Seq<bool>) {
    match s {
        Section::Nested { branches, .. } => {
            if branches.len() > 0 {
                lemma_chosen_branch_bounds(branches@, flags, 0);
            }
        },
        _ => {},
    }
}

/// One pass over a run of sections from `k`, threading the flags through.
pub open spec fn spec_tree_pass_sections(ss: Seq<Section>, k: int, flags: Seq<bool>) -> (
    Seq<int>,
    Seq<bool>,
)
    decreases ss, 0int, ss.len() - k
        when 0 <= k
{
    if k >= ss.len() {
        (Seq::empty(), flags)
    } else {
        let first = spec_section_pass(ss[k], flags);
        let rest = spec_tree_pass_sections(ss, k + 1, first.1);
        (first.0 + rest.0, rest.1)
    }
}

/// One pass over a tree, as a specification.
pub open spec fn spec_tree_pass(t: DirectiveTree, flags: Seq<bool>) -> (Seq<int>, Seq<bool>)
    decreases t, 1int, 0int
{
    spec_tree_pass_sections(t.sections@, 0, flags)
}

/// Enumerates the passes of a directive tree: each pass walks the tree,
/// descending at every nested section into its first unexplored branch (or
/// its last branch when all are explored), and marks the flat sections it
/// emits as explored. Iteration is exhausted once every flat is explored.
pub struct PassIter {
    tree: DirectiveTree,
    explored: Vec<bool>,
    exhausted: bool,
    types: Ghost<Seq<TokenType>>,
}

impl PassIter {
    pub closed spec fn spec_tree(&self) -> DirectiveTree {
        self.tree
    }

    pub closed spec fn spec_flags(&self) -> Seq<bool> {
        self.explored@
    }

    pub closed spec fn spec_exhausted(&self) -> bool {
        self.exhausted
    }

    pub closed spec fn spec_types(&self) -> Seq<TokenType> {
        self.types@
    }

    pub open spec fn wf(&self) -> bool {
        tree_wf(self.spec_tree(), self.spec_types()) && self.spec_tree().spec_idhi()
            <= self.spec_flags().len() && 0 <= self.spec_tree().spec_idhi()
    }

    /// Produces the next pass, or `None` once every section is explored.
    /// The pass is strictly increasing; every token index it holds lies in a
    /// flat section of the tree (so it is not a conditional directive); every
    /// flat newly marked explored by this pass is contained in it; explored
    /// marks only grow.
    pub fn next_pass(&mut self) -> (r: Option<Vec<usize>>)
        requires
            old(self).wf(),
        ensures
            final(self).wf(),
            final(self).spec_tree() == old(self).spec_tree(),
            final(self).spec_types() == old(self).spec_types(),
            final(self).spec_flags().len() == old(self).spec_flags().len(),
            r is None <==> old(self).spec_exhausted(),
            old(self).spec_exhausted() ==> *final(self) == *old(self),
            r matches Some(p) ==> forall|a: int, b: int| 0 <= a < b < p@.len() ==> p@[a] < p@[b],
            r matches Some(p) ==> forall|a: int|
                0 <= a < p@.len() ==> tree_has(old(self).spec_tree(), p@[a] as int),
            r is Some ==> forall|id: int|
                0 <= id < old(self).spec_flags().len() && old(self).spec_flags()[id]
                    ==> final(self).spec_flags()[id],
            r matches Some(p) ==> forall|id: int, idx: int|
                tree_has_flat(old(self).spec_tree(), id, idx)
                    && 0 <= id < old(self).spec_flags().len()
                    && !old(self).spec_flags()[id]
                    && final(self).spec_flags()[id]
                    ==> exists|a: int| 0 <= a < p@.len() && p@[a] == idx,
            r is Some ==> final(self).spec_exhausted() == tree_all_explored(
                old(self).spec_tree(),
                final(self).spec_flags(),
            ),
            r is Some && !tree_all_explored(old(self).spec_tree(), old(self).spec_flags())
                ==> exists|id: int|
                0 <= id < old(self).spec_flags().len() && !(#[trigger] old(self).spec_flags()[id])
                    && final(self).spec_flags()[id],
            r matches Some(p) ==> forall|k: int, idx: int|
                0 <= k < old(self).spec_tree().sections@.len() && #[trigger] sec_flat_window_has(
                    old(self).spec_tree().sections@[k],
                    idx,
                ) ==> exists|a: int| 0 <= a < p@.len() && p@[a] == idx,
            r matches Some(p) ==> p@.map_values(|u: usize| u as int) == spec_tree_pass(
                old(self).spec_tree(),
                old(self).spec_flags(),
            ).0 && final(self).spec_flags() == spec_tree_pass(
                old(self).spec_tree(),
                old(self).spec_flags(),
            ).1,
    {
        if self.exhausted {
            return None;
        }
        let mut pass: Vec<usize> = Vec::new();
        let ghost ts = self.types@;
        tree_pass(&self.tree, &mut self.explored, &mut pass, Ghost(ts));
        proof {
            assert(pass@.subrange(0, pass@.len() as int) =~= pass@);
        }
        let done = tree_explored(&self.tree, &self.explored, Ghost(ts));
        self.exhausted = done;
        let res = Some(pass);
        proof {
            let p = res.unwrap();
            assert(forall|id: int, idx: int|
                tree_has_flat(old(self).spec_tree(), id, idx)
                    && 0 <= id < old(self).spec_flags().len()
                    && !old(self).spec_flags()[id]
                    && self.spec_flags()[id]
                    ==> exists|a: int| 0 <= a < p@.len() && p@[a] == idx);
            assert(forall|k: int, idx: int|
                0 <= k < old(self).spec_tree().sections@.len() && #[trigger] sec_flat_window_has(
                    old(self).spec_tree().sections@[k],
                    idx,
                ) ==> exists|a: int| 0 <= a < p@.len() && p@[a] == idx);
        }
        res
    }
}

/// Emits one pass over `t` into `out`, marking the flats it walks.
fn tree_pass(
    t: &DirectiveTree,
    flags: &mut Vec<bool>,
    out: &mut Vec<usize>,
    Ghost(ts): Ghost<Seq<TokenType>>,
)
    requires
        tree_wf(*t, ts),
        t.idhi <= old(flags)@.len(),
    ensures
        final(flags)@.len() == old(flags)@.len(),
        forall|id: int| 0 <= id < old(flags)@.len() && old(flags)@[id] ==> final(flags)@[id],
        forall|id: int|
            0 <= id < old(flags)@.len() && !(t.idlo <= id < t.idhi)
                ==> final(flags)@[id] == old(flags)@[id],
        final(out)@.len() >= old(out)@.len(),
        final(out)@.take(old(out)@.len() as int) == old(out)@,
        forall|a: int|
            old(out)@.len() <= a < final(out)@.len() ==> t.lo <= (#[trigger] final(out)@[a])
                < t.hi && tree_has(*t, final(out)@[a] as int),
        forall|a: int, b: int|
            old(out)@.len() <= a < b < final(out)@.len() ==> final(out)@[a] < final(out)@[b],
        forall|id: int, idx: int|
            tree_has_flat(*t, id, idx) && 0 <= id < old(flags)@.len() && !old(flags)@[id]
                && final(flags)@[id] ==> exists|a: int|
                old(out)@.len() <= a < final(out)@.len() && final(out)@[a] == idx,
        forall|k: int, idx: int|
            0 <= k < t.sections@.len() && #[trigger] sec_flat_window_has(t.sections@[k], idx)
                ==> exists|a: int|
                old(out)@.len() <= a < final(out)@.len() && final(out)@[a] == idx,
        !tree_all_explored(*t, old(flags)@) ==> exists|id: int|
            0 <= id < old(flags)@.len() && !(#[trigger] old(flags)@[id]) && final(flags)@[id],
        final(out)@.subrange(old(out)@.len() as int, final(out)@.len() as int).map_values(
            |u: usize| u as int,
        ) == spec_tree_pass(*t, old(flags)@).0,
        final(flags)@ == spec_tree_pass(*t, old(flags)@).1,
    decreases *t, 1int,
{
    let n = t.sections.len();
    let mut k: usize = 0;
    let ghost out0 = out@;
    let ghost flags0 = flags@;
    while k < n
        invariant
            n == t.sections@.len(),
            k <= n,
            tree_wf(*t, ts),
            t.idhi <= flags0.len(),
            flags@.len() == flags0.len(),
            out@.len() >= out0.len(),
            out@.take(out0.len() as int) == out0,
            forall|id: int| 0 <= id < flags0.len() && flags0[id] ==> flags@[id],
            forall|id: int|
                0 <= id < flags0.len() && !(t.idlo <= id < t.idhi) ==> flags@[id] == flags0[id],
            forall|id: int|
                0 <= id < flags0.len() && (forall|k2: int|
                    0 <= k2 < k ==> !(sec_idlo(#[trigger] t.sections@[k2]) <= id < sec_idhi(
                        t.sections@[k2],
                    ))) ==> flags@[id] == flags0[id],
            forall|a: int|
                out0.len() <= a < out@.len() ==> t.lo <= (#[trigger] out@[a]) < t.hi && tree_has(
                    *t,
                    out@[a] as int,
                ),
            k == 0 ==> out@ == out0,
            forall|a: int|
                out0.len() <= a < out@.len() ==> (k == 0 || (#[trigger] out@[a]) < sec_hi(
                    t.sections@[k - 1],
                )),
            forall|a: int, b: int| out0.len() <= a < b < out@.len() ==> out@[a] < out@[b],
            forall|id: int, idx: int|
                tree_has_flat(*t, id, idx) && 0 <= id < flags0.len() && !flags0[id] && flags@[id]
                    ==> exists|a: int| out0.len() <= a < out@.len() && out@[a] == idx,
            forall|k2: int, idx: int|
                0 <= k2 < k && #[trigger] sec_flat_window_has(t.sections@[k2], idx) ==> exists|
                    a: int,
                |
                    out0.len() <= a < out@.len() && out@[a] == idx,
            (forall|k2: int|
                0 <= k2 < k ==> sec_all_explored(#[trigger] t.sections@[k2], flags0)) || (exists|
                id: int,
            |
                0 <= id < flags0.len() && !(#[trigger] flags0[id]) && flags@[id]),
            spec_tree_pass_sections(t.sections@, 0, flags0).0 == out@.subrange(
                out0.len() as int,
                out@.len() as int,
            ).map_values(|u: usize| u as int) + spec_tree_pass_sections(
                t.sections@,
                k as int,
                flags@,
            ).0,
            spec_tree_pass_sections(t.sections@, 0, flags0).1 == spec_tree_pass_sections(
                t.sections@,
                k as int,
                flags@,
            ).1,
        decreases n - k,
    {
        let sec = &t.sections[k];
        proof {
            assert(section_wf(t.sections@[k as int], ts));
        }
        let ghost out_before = out@;
        let ghost flags_before = flags@;
        section_pass(sec, flags, out, Ghost(ts));
        proof {
            let sk = t.sections@[k as int];
            assert(out@.take(out_before.len() as int) == out_before);
            assert(out@.take(out0.len() as int) =~= out0);
            assert(forall|a: int|
                0 <= a < out_before.len() ==> #[trigger] out@[a] == out_before[a]);
            assert forall|a: int|
                out0.len() <= a < out@.len() implies t.lo <= (#[trigger] out@[a]) < t.hi
                    && tree_has(*t, out@[a] as int) && out@[a] < sec_hi(sk) by {
                assert(section_wf(sk, ts));
                assert(sec_lo(sk) <= sec_hi(sk));
                if a < out_before.len() {
                    assert(out@[a] == out_before[a]);
                    if k == 0 {
                        assert(out_before == out0);
                        assert(false);
                    } else {
                        assert(out@[a] < sec_hi(t.sections@[k - 1]));
                        assert(sec_hi(t.sections@[k - 1]) <= sec_lo(sk));
                    }
                } else {
                    assert(sec_has_flat_any(sk, out@[a] as int));
                    assert(tree_has(*t, out@[a] as int));
                }
            }
            assert forall|a: int, b: int|
                out0.len() <= a < b < out@.len() implies out@[a] < out@[b] by {
                if b < out_before.len() {
                    assert(out@[a] == out_before[a]);
                    assert(out@[b] == out_before[b]);
                } else if a >= out_before.len() {
                } else {
                    assert(out@[a] == out_before[a]);
                    if k == 0 {
                        assert(out_before == out0);
                        assert(false);
                    } else {
                        assert(out@[a] < sec_hi(t.sections@[k - 1]));
                        assert(sec_hi(t.sections@[k - 1]) <= sec_lo(sk));
                        assert(sec_lo(sk) <= out@[b]);
                    }
                }
            }
            assert forall|k2: int, idx: int|
                0 <= k2 < k + 1 && #[trigger] sec_flat_window_has(t.sections@[k2], idx)
                    implies exists|a: int| out0.len() <= a < out@.len() && out@[a] == idx by {
                if k2 < k {
                    let a = choose|a: int|
                        out0.len() <= a < out_before.len() && out_before[a] == idx;
                    assert(out@[a] == idx);
                } else {
                    assert(sec_flat_window_has(sk, idx));
                    let a = choose|a: int|
                        out_before.len() <= a < out@.len() && out@[a] == idx;
                    assert(out0.len() <= a < out@.len() && out@[a] == idx);
                }
            }
            {
                let left_old: bool = forall|k2: int|
                    0 <= k2 < k ==> sec_all_explored(#[trigger] t.sections@[k2], flags0);
                if left_old {
                    if sec_all_explored(sk, flags0) {
                        assert(forall|k2: int|
                            0 <= k2 < k + 1 ==> sec_all_explored(
                                #[trigger] t.sections@[k2],
                                flags0,
                            ));
                    } else {
                        // earlier sections touched only their own id windows,
                        // so this section was still unexplored just now and
                        // its walk flipped something
                        assert forall|id: int|
                            sec_idlo(sk) <= id < sec_idhi(sk) implies #[trigger] flags0[id]
                            == flags_before[id] by {
                            assert(forall|k2: int|
                                0 <= k2 < k ==> sec_idhi(#[trigger] t.sections@[k2]) <= sec_idlo(
                                    sk,
                                ));
                        }
                        lemma_sec_explored_frame(sk, ts, flags0, flags_before);
                        let id = choose|id: int|
                            0 <= id < flags_before.len() && !(#[trigger] flags_before[id])
                                && flags@[id];
                        assert(!flags0[id] && flags@[id]);
                    }
                } else {
                    let id = choose|id: int|
                        0 <= id < flags0.len() && !(#[trigger] flags0[id]) && flags_before[id];
                    assert(flags@[id]);
                }
            }
            assert(out@.subrange(out0.len() as int, out@.len() as int).map_values(
                |u: usize| u as int,
            ) =~= out_before.subrange(out0.len() as int, out_before.len() as int).map_values(
                |u: usize| u as int,
            ) + out@.subrange(out_before.len() as int, out@.len() as int).map_values(
                |u: usize| u as int,
            ));
            assert(out@.subrange(out_before.len() as int, out@.len() as int).map_values(
                |u: usize| u as int,
            ) == spec_section_pass(sk, flags_before).0);
            assert(spec_tree_pass_sections(t.sections@, k as int, flags_before) == {
                let first = spec_section_pass(sk, flags_before);
                let rest = spec_tree_pass_sections(t.sections@, k + 1, first.1);
                (first.0 + rest.0, rest.1)
            });
            assert forall|id: int, idx: int|
                tree_has_flat(*t, id, idx) && 0 <= id < flags0.len() && !flags0[id] && flags@[id]
                    implies exists|a: int| out0.len() <= a < out@.len() && out@[a] == idx by {
                let kk = choose|kk: int|
                    0 <= kk < t.sections@.len() && sec_has_flat(#[trigger] t.sections@[kk], id, idx);
                lemma_sec_has_flat_id_in_window(t.sections@[kk], id, idx, ts);
                if flags_before[id] {
                    let a = choose|a: int|
                        out0.len() <= a < out_before.len() && out_before[a] == idx;
                    assert(out@[a] == idx);
                } else {
                    // flipped by this section: its id window pins the section
                    assert(sec_idlo(sk) <= id < sec_idhi(sk));
                    if kk != k as int {
                        assert(false);
                    }
                    assert(sec_has_flat(sk, id, idx));
                }
            }
        }
        k = k + 1;
    }
}

/// Emits one pass over a section: a flat emits its whole window and is
/// marked; a nested section descends into its first unexplored branch, or
/// its last branch when every branch is explored.
fn section_pass(
    s: &Section,
    flags: &mut Vec<bool>,
    out: &mut Vec<usize>,
    Ghost(ts): Ghost<Seq<TokenType>>,
)
    requires
        section_wf(*s, ts),
        sec_idhi(*s) <= old(flags)@.len(),
        sec_idlo(*s) <= sec_idhi(*s),
    ensures
        final(flags)@.len() == old(flags)@.len(),
        forall|id: int| 0 <= id < old(flags)@.len() && old(flags)@[id] ==> final(flags)@[id],
        forall|id: int|
            0 <= id < old(flags)@.len() && !(sec_idlo(*s) <= id < sec_idhi(*s))
                ==> final(flags)@[id] == old(flags)@[id],
        final(out)@.len() >= old(out)@.len(),
        final(out)@.take(old(out)@.len() as int) == old(out)@,
        forall|a: int|
            old(out)@.len() <= a < final(out)@.len() ==> sec_lo(*s) <= (#[trigger] final(out)@[a])
                < sec_hi(*s) && sec_has_flat_any(*s, final(out)@[a] as int),
        forall|a: int, b: int|
            old(out)@.len() <= a < b < final(out)@.len() ==> final(out)@[a] < final(out)@[b],
        forall|id: int, idx: int|
            sec_has_flat(*s, id, idx) && 0 <= id < old(flags)@.len() && !old(flags)@[id]
                && final(flags)@[id] ==> exists|a: int|
                old(out)@.len() <= a < final(out)@.len() && final(out)@[a] == idx,
        final(out)@.subrange(old(out)@.len() as int, final(out)@.len() as int).map_values(
            |u: usize| u as int,
        ) == spec_section_pass(*s, old(flags)@).0,
        final(flags)@ == spec_section_pass(*s, old(flags)@).1,
        (*s) matches Section::Flat { id, .. } ==> final(flags)@[id as int],
        forall|idx: int|
            #[trigger] sec_flat_window_has(*s, idx) ==> exists|a: int|
                old(out)@.len() <= a < final(out)@.len() && final(out)@[a] == idx,
        !sec_all_explored(*s, old(flags)@) ==> exists|id: int|
            0 <= id < old(flags)@.len() && !(#[trigger] old(flags)@[id]) && final(flags)@[id],
    decreases *s, 0int,
{
    match s {
        Section::Flat { lo, hi, id } => {
            let ghost out0 = out@;
            let mut i: usize = *lo;
            while i < *hi
                invariant
                    *lo <= i <= *hi,
                    out@.len() == out0.len() + (i - *lo),
                    out@.take(out0.len() as int) == out0,
                    forall|a: int|
                        out0.len() <= a < out@.len() ==> (#[trigger] out@[a]) == *lo + (a
                            - out0.len()),
                decreases *hi - i,
            {
                let ghost outp = out@;
                out.push(i);
                i = i + 1;
                proof {
                    assert(out@.take(out0.len() as int) =~= out0);
                }
            }
            let ghost flags_b = flags@;
            flags[*id] = true;
            proof {
                assert forall|id2: int, idx: int|
                    sec_has_flat(*s, id2, idx) && 0 <= id2 < flags_b.len() && !flags_b[id2]
                        && flags@[id2] implies exists|a: int|
                    out0.len() <= a < out@.len() && out@[a] == idx by {
                    let a = out0.len() + (idx - *lo as int);
                    assert(out@[a] == idx);
                }
                assert forall|a: int|
                    out0.len() <= a < out@.len() implies sec_lo(*s) <= (#[trigger] out@[a])
                        < sec_hi(*s) && sec_has_flat_any(*s, out@[a] as int) by {
                    assert(out@[a] == *lo + (a - out0.len() as int));
                    assert(sec_has_flat(*s, *id as int, out@[a] as int));
                }
                assert forall|idx: int| #[trigger] sec_flat_window_has(*s, idx) implies exists|
                    a: int,
                |
                    out0.len() <= a < out@.len() && out@[a] == idx by {
                    let a = out0.len() + (idx - *lo as int);
                    assert(out@[a] == idx);
                }
                assert(out@.subrange(out0.len() as int, out@.len() as int).map_values(
                    |u: usize| u as int,
                ) =~= spec_section_pass(*s, flags_b).0);
            }
        },
        Section::Nested { lo, hi, idlo, idhi, branches } => {
            let n = branches.len();
            if n == 0 {
                return ;
            }
            // descend into the first unexplored branch, or the last branch
            // when every branch is explored
            let mut j: usize = 0;
            let mut chosen: usize = n - 1;
            let mut found = false;
            while !found && j < n
                invariant
                    *s is Nested,
                    s->Nested_branches@ == branches@,
                    j <= n,
                    n == branches@.len(),
                    n >= 1,
                    chosen < n,
                    forall|b2: int|
                        0 <= b2 < n ==> tree_wf(#[trigger] branches@[b2], ts) && branches@[b2].idhi
                            <= flags@.len(),
                    found ==> !tree_all_explored(branches@[chosen as int], flags@),
                    !found ==> chosen == n - 1 && forall|b2: int|
                        0 <= b2 < j ==> tree_all_explored(#[trigger] branches@[b2], flags@),
                    found ==> spec_chosen_branch(branches@, flags@, 0) == chosen as int,
                    !found ==> spec_chosen_branch(branches@, flags@, 0) == spec_chosen_branch(
                        branches@,
                        flags@,
                        j as int,
                    ),
                decreases n - j, (if found { 0int } else { 1int }),
            {
                proof {
                    let br = s->Nested_branches;
                    assert(*s == Section::Nested {
                        lo: s->Nested_lo,
                        hi: s->Nested_hi,
                        idlo: s->Nested_idlo,
                        idhi: s->Nested_idhi,
                        branches: br,
                    });
                    assert(vstd::prelude::decreases_to!(*s => br));
                    assert(vstd::prelude::decreases_to!(br => br@));
                    assert(vstd::prelude::decreases_to!(br@ => br@[j as int]));
                    assert(br@[j as int] == branches@[j as int]);
                }
                if !tree_explored(&branches[j], flags, Ghost(ts)) {
                    chosen = j;
                    found = true;
                } else {
                    j = j + 1;
                }
            }
            proof {
                assert(tree_wf(branches@[chosen as int], ts));
                assert(branches@[chosen as int].idhi <= sec_idhi(*s));
            }
            let ghost flags0 = flags@;
            let ghost out0 = out@;
            proof {
                assert(tree_wf(branches@[chosen as int], ts));
                assert(branches@[chosen as int].idhi <= sec_idhi(*s));
                assert(spec_chosen_branch(branches@, flags0, 0) == chosen as int);
            }
            tree_pass(&branches[chosen], flags, out, Ghost(ts));
            proof {
                assert(out@.subrange(out0.len() as int, out@.len() as int).map_values(
                    |u: usize| u as int,
                ) == spec_tree_pass(branches@[chosen as int], flags0).0);
                assert(spec_section_pass(*s, flags0).0 == spec_tree_pass(
                    branches@[chosen as int],
                    flags0,
                ).0);
                assert(flags@ == spec_section_pass(*s, flags0).1);
            }
            proof {
                let t = branches@[chosen as int];
                assert forall|id: int, idx: int|
                    sec_has_flat(*s, id, idx) && 0 <= id < flags0.len() && !flags0[id]
                        && flags@[id] implies exists|a: int|
                    out0.len() <= a < out@.len() && out@[a] == idx by {
                    let b = choose|b: int|
                        0 <= b < branches@.len() && tree_has_flat(#[trigger] branches@[b], id, idx);
                    lemma_has_flat_id_in_window(branches@[b], id, idx, ts);
                    if b != chosen as int {
                        // id lies in a sibling's id window, which this pass
                        // did not touch
                        assert(branches@[b].idhi <= t.idlo || t.idhi <= branches@[b].idlo);
                        assert(flags@[id] == flags0[id]);
                    } else {
                        assert(tree_has_flat(t, id, idx));
                    }
                }
                assert forall|a: int|
                    out0.len() <= a < out@.len() implies sec_lo(*s) <= (#[trigger] out@[a]) < sec_hi(
                    *s,
                ) && sec_has_flat_any(*s, out@[a] as int) by {
                    let v = out@[a] as int;
                    assert(tree_has(t, v));
                    lemma_tree_has_gives_id(t, v, ts);
                    let id = choose|id: int| tree_has_flat(t, id, v);
                    assert(sec_has_flat(*s, id, v));
                }
                if !sec_all_explored(*s, flags0) {
                    // some branch was unexplored, so the chooser picked an
                    // unexplored one and the walk made progress in it
                    assert(found) by {
                        if !found {
                            assert(forall|b2: int|
                                0 <= b2 < branches@.len() ==> tree_all_explored(
                                    #[trigger] branches@[b2],
                                    flags0,
                                ));
                            assert(sec_all_explored(*s, flags0));
                        }
                    }
                    assert(!tree_all_explored(t, flags0));
                    assert(exists|id: int|
                        0 <= id < flags0.len() && !(#[trigger] flags0[id]) && flags@[id]);
                }
            }
        },
    }
}

/// An index some flat holds is held by a flat with a particular identifier.
proof fn lemma_tree_has_gives_id(t: DirectiveTree, idx: int, ts: Seq<TokenType>)
    requires
        tree_wf(t, ts),
        tree_has(t, idx),
    ensures
        exists|id: int| tree_has_flat(t, id, idx),
{
    let k = choose|k: int|
        0 <= k < t.sections@.len() && sec_has_flat_any(#[trigger] t.sections@[k], idx);
    let id = choose|id: int| sec_has_flat(t.sections@[k], id, idx);
    assert(tree_has_flat(t, id, idx));
}

/// An index in a flat with identifier `id` pins `id` inside the tree's id
/// window.
proof fn lemma_has_flat_id_in_window(t: DirectiveTree, id: int, idx: int, ts: Seq<TokenType>)
    requires
        tree_wf(t, ts),
        tree_has_flat(t, id, idx),
    ensures
        t.idlo <= id < t.idhi,
        t.lo <= idx < t.hi,
    decreases t,
{
    let k = choose|k: int|
        0 <= k < t.sections@.len() && sec_has_flat(#[trigger] t.sections@[k], id, idx);
    lemma_sec_has_flat_id_in_window(t.sections@[k], id, idx, ts);
}

proof fn lemma_sec_has_flat_id_in_window(s: Section, id: int, idx: int, ts: Seq<TokenType>)
    requires
        section_wf(s, ts),
        sec_has_flat(s, id, idx),
    ensures
        sec_idlo(s) <= id < sec_idhi(s),
        sec_lo(s) <= idx < sec_hi(s),
    decreases s,
{
    match s {
        Section::Flat { .. } => {},
        Section::Nested { branches, .. } => {
            let b = choose|b: int|
                0 <= b < branches.len() && tree_has_flat(#[trigger] branches[b], id, idx);
            lemma_has_flat_id_in_window(branches[b], id, idx, ts);
        },
    }
}

/// Whether every flat section of the tree is explored.
fn tree_explored(t: &DirectiveTree, flags: &Vec<bool>, Ghost(ts): Ghost<Seq<TokenType>>) -> (r:
    bool)
    requires
        tree_wf(*t, ts),
        t.idhi <= flags@.len(),
    ensures
        r == tree_all_explored(*t, flags@),
    decreases *t, 1int,
{
    let n = t.sections.len();
    let mut k: usize = 0;
    let mut all = true;
    while all && k < n
        invariant
            k <= n,
            n == t.sections@.len(),
            tree_wf(*t, ts),
            t.idhi <= flags@.len(),
            all ==> forall|k2: int|
                0 <= k2 < k ==> sec_all_explored(#[trigger] t.sections@[k2], flags@),
            !all ==> k < n && !sec_all_explored(t.sections@[k as int], flags@),
        decreases n - k, (if all { 1int } else { 0int }),
    {
        proof {
            assert(section_wf(t.sections@[k as int], ts));
            assert(sec_idhi(t.sections@[k as int]) <= t.idhi);
        }
        if !section_explored(&t.sections[k], flags, Ghost(ts)) {
            all = false;
        } else {
            k = k + 1;
        }
    }
    all
}

fn section_explored(s: &Section, flags: &Vec<bool>, Ghost(ts): Ghost<Seq<TokenType>>) -> (r: bool)
    requires
        section_wf(*s, ts),
        sec_idhi(*s) <= flags@.len(),
        sec_idlo(*s) <= sec_idhi(*s),
    ensures
        r == sec_all_explored(*s, flags@),
    decreases *s, 0int,
{
    match s {
        Section::Flat { id, .. } => flags[*id],
        Section::Nested { branches, .. } => {
            let n = branches.len();
            let mut b: usize = 0;
            let mut all = true;
            while all && b < n
                invariant
                    *s is Nested,
                    s->Nested_branches@ == branches@,
                    b <= n,
                    n == branches@.len(),
                    forall|b2: int|
                        0 <= b2 < n ==> tree_wf(#[trigger] branches@[b2], ts) && branches@[b2].idhi
                            <= flags@.len(),
                    all ==> forall|b2: int|
                        0 <= b2 < b ==> tree_all_explored(#[trigger] branches@[b2], flags@),
                    !all ==> b < n && !tree_all_explored(branches@[b as int], flags@),
                decreases n - b, (if all { 1int } else { 0int }),
            {
                proof {
                    let br = s->Nested_branches;
                    assert(*s == Section::Nested {
                        lo: s->Nested_lo,
                        hi: s->Nested_hi,
                        idlo: s->Nested_idlo,
                        idhi: s->Nested_idhi,
                        branches: br,
                    });
                    assert(vstd::prelude::decreases_to!(*s => br));
                    assert(vstd::prelude::decreases_to!(br => br@));
                    assert(vstd::prelude::decreases_to!(br@ => br@[b as int]));
                    assert(br@[b as int] == branches@[b as int]);
                }
                if !tree_explored(&branches[b], flags, Ghost(ts)) {
                    all = false;
                } else {
                    b = b + 1;
                }
            }
            all
        },
    }
}


/// Whether a section is fully explored depends only on the flags inside its
/// own identifier window.
proof fn lemma_sec_explored_frame(s: Section, ts: Seq<TokenType>, f0: Seq<bool>, f1: Seq<bool>)
    requires
        section_wf(s, ts),
        f0.len() == f1.len(),
        forall|id: int| sec_idlo(s) <= id < sec_idhi(s) ==> #[trigger] f0[id] == f1[id],
    ensures
        sec_all_explored(s, f0) == sec_all_explored(s, f1),
    decreases s,
{
    match s {
        Section::Flat { id, .. } => {},
        Section::Nested { branches, .. } => {
            assert forall|b: int|
                0 <= b < branches.len() implies tree_all_explored(#[trigger] branches[b], f0)
                == tree_all_explored(branches[b], f1) by {
                lemma_tree_explored_frame(branches[b], ts, f0, f1);
            }
        },
    }
}

proof fn lemma_tree_explored_frame(t: DirectiveTree, ts: Seq<TokenType>, f0: Seq<bool>, f1: Seq<
    bool,
>)
    requires
        tree_wf(t, ts),
        f0.len() == f1.len(),
        forall|id: int| t.idlo <= id < t.idhi ==> #[trigger] f0[id] == f1[id],
    ensures
        tree_all_explored(t, f0) == tree_all_explored(t, f1),
    decreases t,
{
    assert forall|k: int|
        0 <= k < t.sections@.len() implies sec_all_explored(#[trigger] t.sections@[k], f0)
        == sec_all_explored(t.sections@[k], f1) by {
        lemma_sec_explored_frame(t.sections@[k], ts, f0, f1);
    }
}

/// In a fully explored tree, the flag of every flat holding a token is set.
proof fn lemma_all_explored_has_flat(t: DirectiveTree, id: int, idx: int, flags: Seq<bool>)
    requires
        tree_all_explored(t, flags),
        tree_has_flat(t, id, idx),
    ensures
        0 <= id < flags.len() && flags[id],
    decreases t,
{
    let k = choose|k: int|
        0 <= k < t.sections@.len() && sec_has_flat(#[trigger] t.sections@[k], id, idx);
    lemma_sec_all_explored_has_flat(t.sections@[k], id, idx, flags);
}

proof fn lemma_sec_all_explored_has_flat(s: Section, id: int, idx: int, flags: Seq<bool>)
    requires
        sec_all_explored(s, flags),
        sec_has_flat(s, id, idx),
    ensures
        0 <= id < flags.len() && flags[id],
    decreases s,
{
    match s {
        Section::Flat { .. } => {},
        Section::Nested { branches, .. } => {
            let b = choose|b: int|
                0 <= b < branches.len() && tree_has_flat(#[trigger] branches[b], id, idx);
            lemma_all_explored_has_flat(branches[b], id, idx, flags);
        },
    }
}

/// A flag that starts cleared and ends set flips at some step.
proof fn lemma_flag_flip(flags: Seq<Seq<bool>>, id: int, n: int)
    requires
        1 <= n < flags.len(),
        0 <= id,
        forall|k: int| 0 <= k < n ==> id < (#[trigger] flags[k]).len() && id < flags[k + 1].len(),
        !flags[0][id],
        flags[n][id],
    ensures
        exists|k: int| 0 <= k < n && !(#[trigger] flags[k])[id] && flags[k + 1][id],
    decreases n,
{
    if flags[n - 1][id] {
        lemma_flag_flip(flags, id, n - 1);
    } else {
        assert(!flags[n - 1][id] && flags[n][id]);
    }
}

/// Directive-tree completeness across passes: run the pass iterator to
/// exhaustion, and every token index held by some flat section of the tree
/// appears in at least one emitted pass. `flags[k]` is the explored state
/// before pass `k`; each step obeys the contract of `next_pass`: explored
/// marks only grow, and every flat a step marks is contained in that step's
/// pass.
pub proof fn lemma_pass_completeness(
    tree: DirectiveTree,
    flags: Seq<Seq<bool>>,
    passes: Seq<Seq<usize>>,
    ts: Seq<TokenType>,
    idx: int,
)
    requires
        tree_wf(tree, ts),
        flags.len() == passes.len() + 1,
        passes.len() >= 1,
        tree.spec_idhi() <= flags[0].len(),
        forall|id: int| 0 <= id < flags[0].len() ==> !(#[trigger] flags[0][id]),
        forall|k: int| 0 <= k < passes.len() ==> (#[trigger] flags[k + 1]).len() == flags[k].len(),
        forall|k: int, id: int|
            0 <= k < passes.len() && 0 <= id < flags[0].len() && (#[trigger] flags[k][id])
                ==> flags[k + 1][id],
        forall|k: int, id: int, ix: int|
            0 <= k < passes.len() && #[trigger] tree_has_flat(tree, id, ix) && 0 <= id
                < flags[0].len() && !(#[trigger] flags[k][id]) && flags[k + 1][id] ==> exists|a: int|
                0 <= a < passes[k].len() && passes[k][a] == ix,
        tree_all_explored(tree, flags[passes.len() as int]),
        tree_has(tree, idx),
    ensures
        exists|k: int, a: int|
            0 <= k < passes.len() && 0 <= a < passes[k].len() && #[trigger] passes[k][a] == idx,
{
    lemma_tree_has_gives_id(tree, idx, ts);
    let id = choose|id: int| tree_has_flat(tree, id, idx);
    lemma_has_flat_id_in_window(tree, id, idx, ts);
    let n = passes.len() as int;
    lemma_all_explored_has_flat(tree, id, idx, flags[n]);
    assert forall|k: int| 0 <= k < n implies id < (#[trigger] flags[k]).len() && id < flags[k
        + 1].len() by {
        lemma_flags_len_const(flags, k, n);
        lemma_flags_len_const(flags, k + 1, n);
    }
    lemma_flag_flip(flags, id, n);
    let k = choose|k: int| 0 <= k < n && !(#[trigger] flags[k])[id] && flags[k + 1][id];
    assert(exists|a: int| 0 <= a < passes[k].len() && passes[k][a] == idx);
    let a = choose|a: int| 0 <= a < passes[k].len() && passes[k][a] == idx;
    assert(0 <= k < passes.len() && 0 <= a < passes[k].len() && #[trigger] passes[k][a] == idx);
}

proof fn lemma_flags_len_const(flags: Seq<Seq<bool>>, k: int, n: int)
    requires
        0 <= k <= n,
        n + 1 == flags.len(),
        forall|j: int| 0 <= j < n ==> (#[trigger] flags[j + 1]).len() == flags[j].len(),
    ensures
        flags[k].len() == flags[0].len(),
    decreases k,
{
    if k > 0 {
        lemma_flags_len_const(flags, k - 1, n);
        assert(flags[(k - 1) + 1].len() == flags[k - 1].len());
    }
}


/// Some position of `p` holds the index `idx`.
pub open spec fn seq_covers(p: Seq<usize>, idx: int) -> bool {
    exists|a: int| 0 <= a < p.len() && (#[trigger] p[a]) == idx
}

/// A strictly increasing sequence of indices below `n` that covers every
/// index below `n` is the identity enumeration of `[0, n)`.
pub proof fn lemma_sorted_cover_is_identity(p: Seq<usize>, n: int)
    requires
        n >= 0,
        forall|a: int, b: int| 0 <= a < b < p.len() ==> p[a] < p[b],
        forall|a: int| 0 <= a < p.len() ==> (#[trigger] p[a]) < n,
        forall|idx: int| 0 <= idx < n ==> #[trigger] seq_covers(p, idx),
    ensures
        p.len() == n,
        forall|a: int| 0 <= a < n ==> p[a] == a,
{
    assert forall|a: int| 0 <= a < p.len() implies (#[trigger] p[a]) >= a by {
        lemma_sorted_lower_bound(p, a);
    }
    assert forall|a: int| 0 <= a < p.len() && a < n implies (#[trigger] p[a]) == a by {
        lemma_sorted_cover_pointwise(p, n, a);
    }
    if p.len() > n {
        assert(p[n as int] >= n);
        assert(false);
    }
    if p.len() < n {
        assert(seq_covers(p, p.len() as int));
        let a = choose|a: int| 0 <= a < p.len() && (#[trigger] p[a]) == p.len() as int;
        assert(p[a] == a);
        assert(false);
    }
}

proof fn lemma_sorted_lower_bound(p: Seq<usize>, a: int)
    requires
        0 <= a < p.len(),
        forall|x: int, y: int| 0 <= x < y < p.len() ==> p[x] < p[y],
    ensures
        p[a] >= a,
    decreases a,
{
    if a > 0 {
        lemma_sorted_lower_bound(p, a - 1);
        assert(p[a - 1] < p[a]);
    }
}

proof fn lemma_sorted_cover_pointwise(p: Seq<usize>, n: int, a: int)
    requires
        0 <= a < p.len(),
        a < n,
        forall|x: int, y: int| 0 <= x < y < p.len() ==> p[x] < p[y],
        forall|x: int| 0 <= x < p.len() ==> (#[trigger] p[x]) < n,
        forall|idx: int| 0 <= idx < n ==> #[trigger] seq_covers(p, idx),
    ensures
        p[a] == a,
    decreases a,
{
    lemma_sorted_lower_bound(p, a);
    assert(seq_covers(p, a));
    let w = choose|w: int| 0 <= w < p.len() && (#[trigger] p[w]) == a;
    lemma_sorted_lower_bound(p, w);
    assert(w <= a);
    if w < a {
        lemma_sorted_cover_pointwise(p, n, w);
        assert(false);
    }
}

/// For a token stream without conditional directives, the first pass is the
/// whole index range `[0, n)` in order, and the iteration is then exhausted:
/// exactly one pass is yielded. The hypotheses are the contract of
/// `DirectiveTree::parse` on such a stream and of the first `next_pass` call.
pub proof fn lemma_single_pass_directive_free(
    tree: DirectiveTree,
    p: Seq<usize>,
    flags0: Seq<bool>,
    flags1: Seq<bool>,
    n: int,
)
    requires
        n >= 0,
        tree.sections@.len() == 1,
        tree.sections@[0] matches Section::Flat { lo, hi, id } && lo == 0 && hi as int == n && id
            == 0,
        flags1.len() == flags0.len(),
        flags0.len() >= 1,
        forall|id: int| 0 <= id < flags0.len() ==> !(#[trigger] flags0[id]),
        // the pass contract of `next_pass`
        forall|a: int, b: int| 0 <= a < b < p.len() ==> p[a] < p[b],
        forall|a: int| 0 <= a < p.len() ==> tree_has(tree, (#[trigger] p[a]) as int),
        forall|k: int, idx: int|
            0 <= k < tree.sections@.len() && #[trigger] sec_flat_window_has(
                tree.sections@[k],
                idx,
            ) ==> exists|a: int| 0 <= a < p.len() && (#[trigger] p[a]) == idx,
        n > 0 ==> exists|id: int| 0 <= id < flags0.len() && !(#[trigger] flags0[id]) && flags1[id],
        forall|id: int| 0 <= id < flags0.len() && (#[trigger] flags0[id]) ==> flags1[id],
        n > 0 ==> tree.spec_idhi() == 1,
        flags0.len() == tree.spec_idhi(),
    ensures
        p.len() == n,
        forall|a: int| 0 <= a < n ==> p[a] == a,
        n > 0 ==> tree_all_explored(tree, flags1),
{
    assert forall|a: int| 0 <= a < p.len() implies (#[trigger] p[a]) < n by {
        assert(tree_has(tree, p[a] as int));
        let k = choose|k: int|
            0 <= k < tree.sections@.len() && sec_has_flat_any(#[trigger] tree.sections@[k], p[a] as int);
        let id = choose|id: int| sec_has_flat(tree.sections@[k], id, p[a] as int);
    }
    assert forall|idx: int| 0 <= idx < n implies #[trigger] seq_covers(p, idx) by {
        assert(sec_flat_window_has(tree.sections@[0], idx));
    }
    lemma_sorted_cover_is_identity(p, n);
    if n > 0 {
        let id = choose|id: int| 0 <= id < flags0.len() && !(#[trigger] flags0[id]) && flags1[id];
        assert(id == 0);
        assert forall|k: int| 0 <= k < tree.sections@.len() implies sec_all_explored(
            #[trigger] tree.sections@[k],
            flags1,
        ) by {
            assert(flags1[0]);
        }
    }
}

} // verus!
