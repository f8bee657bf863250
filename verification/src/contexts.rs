use vstd::prelude::*;

verus! {

/// The bracket family a bracket context was opened with.
#[derive(Debug, PartialEq, Eq, Copy, Clone, Structural)]
pub enum BracketKind {
    Round,
    Square,
    Angle,
}

/// How a bracket context lays its contents out.
#[derive(Debug, PartialEq, Eq, Copy, Clone, Structural)]
pub enum BracketStyle {
    Standard,
    Invisible,
    BreakClose,
    Expanded,
}

/// The kinds of syntactic context the optimising formatter keeps open while
/// walking a logical line.
#[derive(Debug, PartialEq, Eq, Copy, Clone, Structural)]
pub enum ContextType {
    Base,
    Brackets(BracketKind, BracketStyle),
    CommaList,
    SemicolonList,
    DirectiveList,
    MemberAccess,
    Precedence(u8),
    TypedAssignment,
    Assignment,
    AssignRHS,
    ControlFlowBegin,
    GuardClause,
    ForLoop,
    RaiseAt,
    RoutineHeader,
    TypeName,
    ConditionalDirective,
    CommaElem,
}

/// The mutable data of one open context: whether a break happened inside it
/// or inside a child, whether its elements were forced one-per-line, whether
/// an anonymous routine inside it elected expansion, and whether it accepts
/// breaks at all.
#[derive(Debug, PartialEq, Eq, Copy, Clone, Structural)]
pub struct ContextData {
    pub is_broken: bool,
    pub is_child_broken: bool,
    pub one_element_per_line: Option<bool>,
    pub break_anonymous_routine: Option<bool>,
    pub supports_break: bool,
}

/// A per-token hard constraint on breaking.
#[derive(Debug, PartialEq, Eq, Copy, Clone, Structural)]
pub enum DecisionRequirement {
    MustBreak,
    MustNotBreak,
    Indifferent,
    Invalid,
}

impl DecisionRequirement {
    /// The parents-support-break gate: where no enclosing context accepts
    /// breaks, a Must-Break degrades to Indifferent.
    pub open spec fn spec_map_can_break(self, can_break: bool) -> DecisionRequirement {
        if !can_break && self == DecisionRequirement::MustBreak {
            DecisionRequirement::Indifferent
        } else {
            self
        }
    }

    pub fn map_can_break(self, can_break: bool) -> (r: DecisionRequirement)
        ensures
            r == self.spec_map_can_break(can_break),
    {
        if !can_break && matches!(self, DecisionRequirement::MustBreak) {
            DecisionRequirement::Indifferent
        } else {
            self
        }
    }
}

/// A selector over context types, standing in for the pattern matches the
/// requirement table performs on the stack.
#[derive(Debug, PartialEq, Eq, Copy, Clone, Structural)]
pub enum ContextQuery {
    AnyContext,
    RoundBrackets,
    AnyBrackets,
    BracketsOrSemicolonList,
    CommaListQ,
    SemicolonListQ,
    DirectiveListQ,
    ConditionalDirectiveQ,
    RoutineHeaderOrBracketsOrType,
    TypedAssignmentOrAssignment,
    CommaElemOrAssignRHS,
    ForLoopQ,
    RaiseAtQ,
    ControlFlowBeginQ,
    BaseQ,
    CommaListOrGuardClause,
    AssignRHSQ,
}

pub open spec fn spec_query_matches(q: ContextQuery, ct: ContextType) -> bool {
    match q {
        ContextQuery::AnyContext => true,
        ContextQuery::RoundBrackets => ct matches ContextType::Brackets(BracketKind::Round, _),
        ContextQuery::AnyBrackets => ct matches ContextType::Brackets(_, _),
        ContextQuery::BracketsOrSemicolonList => ct matches ContextType::Brackets(_, _) || ct
            == ContextType::SemicolonList,
        ContextQuery::CommaListQ => ct == ContextType::CommaList,
        ContextQuery::SemicolonListQ => ct == ContextType::SemicolonList,
        ContextQuery::DirectiveListQ => ct == ContextType::DirectiveList,
        ContextQuery::ConditionalDirectiveQ => ct == ContextType::ConditionalDirective,
        ContextQuery::RoutineHeaderOrBracketsOrType => ct == ContextType::RoutineHeader || ct
            matches ContextType::Brackets(_, _) || ct == ContextType::TypeName,
        ContextQuery::TypedAssignmentOrAssignment => ct == ContextType::TypedAssignment || ct
            == ContextType::Assignment,
        ContextQuery::CommaElemOrAssignRHS => ct == ContextType::CommaElem || ct
            == ContextType::AssignRHS,
        ContextQuery::ForLoopQ => ct == ContextType::ForLoop,
        ContextQuery::RaiseAtQ => ct == ContextType::RaiseAt,
        ContextQuery::ControlFlowBeginQ => ct == ContextType::ControlFlowBegin,
        ContextQuery::BaseQ => ct == ContextType::Base,
        ContextQuery::CommaListOrGuardClause => ct == ContextType::CommaList || ct
            == ContextType::GuardClause,
        ContextQuery::AssignRHSQ => ct == ContextType::AssignRHS,
    }
}

fn query_matches(q: ContextQuery, ct: ContextType) -> (r: bool)
    ensures
        r == spec_query_matches(q, ct),
{
    match q {
        ContextQuery::AnyContext => true,
        ContextQuery::RoundBrackets => matches!(ct, ContextType::Brackets(BracketKind::Round, _)),
        ContextQuery::AnyBrackets => matches!(ct, ContextType::Brackets(_, _)),
        ContextQuery::BracketsOrSemicolonList => matches!(
            ct,
            ContextType::Brackets(_, _) | ContextType::SemicolonList
        ),
        ContextQuery::CommaListQ => matches!(ct, ContextType::CommaList),
        ContextQuery::SemicolonListQ => matches!(ct, ContextType::SemicolonList),
        ContextQuery::DirectiveListQ => matches!(ct, ContextType::DirectiveList),
        ContextQuery::ConditionalDirectiveQ => matches!(ct, ContextType::ConditionalDirective),
        ContextQuery::RoutineHeaderOrBracketsOrType => matches!(
            ct,
            ContextType::RoutineHeader | ContextType::Brackets(_, _) | ContextType::TypeName
        ),
        ContextQuery::TypedAssignmentOrAssignment => matches!(
            ct,
            ContextType::TypedAssignment | ContextType::Assignment
        ),
        ContextQuery::CommaElemOrAssignRHS => matches!(
            ct,
            ContextType::CommaElem | ContextType::AssignRHS
        ),
        ContextQuery::ForLoopQ => matches!(ct, ContextType::ForLoop),
        ContextQuery::RaiseAtQ => matches!(ct, ContextType::RaiseAt),
        ContextQuery::ControlFlowBeginQ => matches!(ct, ContextType::ControlFlowBegin),
        ContextQuery::BaseQ => matches!(ct, ContextType::Base),
        ContextQuery::CommaListOrGuardClause => matches!(
            ct,
            ContextType::CommaList | ContextType::GuardClause
        ),
        ContextQuery::AssignRHSQ => matches!(ct, ContextType::AssignRHS),
    }
}


/// The position of the innermost context matching the query, or -1 when none
/// does.
pub open spec fn spec_last_context(items: Seq<(ContextType, ContextData)>, q: ContextQuery) -> int
    decreases items.len(),
{
    if items.len() == 0 {
        -1
    } else if spec_query_matches(q, items.last().0) {
        items.len() - 1
    } else {
        spec_last_context(items.drop_last(), q)
    }
}

/// The innermost context matching the query, by value.
pub open spec fn spec_ctx_at(
    items: Seq<(ContextType, ContextData)>,
    q: ContextQuery,
) -> Option<(ContextType, ContextData)> {
    let li = spec_last_context(items, q);
    if 0 <= li < items.len() {
        Some(items[li])
    } else {
        None
    }
}

/// The stack of open contexts at a token, innermost last.
pub struct SpecificContextDataStack {
    items: Vec<(ContextType, ContextData)>,
}

impl SpecificContextDataStack {
    pub closed spec fn spec_items(&self) -> Seq<(ContextType, ContextData)> {
        self.items@
    }

    pub fn new() -> (r: Self)
        ensures
            r.spec_items() == Seq::<(ContextType, ContextData)>::empty(),
    {
        let items: Vec<(ContextType, ContextData)> = Vec::new();
        proof {
            assert(items@ =~= Seq::<(ContextType, ContextData)>::empty());
        }
        SpecificContextDataStack { items }
    }

    pub fn push(&mut self, ct: ContextType, data: ContextData)
        ensures
            final(self).spec_items() == old(self).spec_items().push((ct, data)),
    {
        self.items.push((ct, data));
    }

    pub fn len(&self) -> (r: usize)
        ensures
            r == self.spec_items().len(),
    {
        self.items.len()
    }

    /// The innermost open context, if any.
    pub fn last(&self) -> (r: Option<&(ContextType, ContextData)>)
        ensures
            self.spec_items().len() == 0 <==> r is None,
            r matches Some(p) ==> *p == self.spec_items().last(),
    {
        if self.items.len() == 0 {
            None
        } else {
            Some(&self.items[self.items.len() - 1])
        }
    }

    /// The innermost context matching the query: no context above it matches,
    /// and `None` only when none matches at all — the entry `spec_last_context`
    /// names.
    pub fn get_last_context(&self, q: ContextQuery) -> (r: Option<&(ContextType, ContextData)>)
        ensures
            ({
                let li = spec_last_context(self.spec_items(), q);
                match r {
                    Some(p) => 0 <= li < self.spec_items().len() && *p == self.spec_items()[li],
                    None => li < 0,
                }
            }),
            match r {
                Some(p) => exists|i: int|
                    0 <= i < self.spec_items().len() && *p == self.spec_items()[i]
                        && spec_query_matches(q, self.spec_items()[i].0) && (forall|j: int|
                        i < j < self.spec_items().len() ==> !spec_query_matches(
                            q,
                            (#[trigger] self.spec_items()[j]).0,
                        )),
                None => forall|j: int|
                    0 <= j < self.spec_items().len() ==> !spec_query_matches(
                        q,
                        (#[trigger] self.spec_items()[j]).0,
                    ),
            },
    {
        proof {
            assert(self.spec_items().take(self.spec_items().len() as int) =~= self.spec_items());
        }
        let n = self.items.len();
        let mut k: usize = n;
        while k > 0
            invariant
                k <= n,
                n == self.spec_items().len(),
                spec_last_context(self.spec_items(), q) == spec_last_context(
                    self.spec_items().take(k as int),
                    q,
                ),
                forall|j: int|
                    k <= j < n ==> !spec_query_matches(q, (#[trigger] self.spec_items()[j]).0),
            decreases k,
        {
            proof {
                assert(self.spec_items().take(k as int).last() == self.spec_items()[k - 1]);
                assert(self.spec_items().take(k as int).drop_last() =~= self.spec_items().take(
                    k - 1,
                ));
            }
            if query_matches(q, self.items[k - 1].0) {
                return Some(&self.items[k - 1]);
            }
            k = k - 1;
        }
        None
    }

    /// Whether some enclosing context accepts breaks: where none does, a
    /// Must-Break requirement is degraded.
    pub open spec fn spec_parents_support_break(&self) -> bool {
        exists|i: int|
            0 <= i < self.spec_items().len() && (#[trigger] self.spec_items()[i]).1.supports_break
    }

    pub fn parents_support_break(&self) -> (r: bool)
        ensures
            r == self.spec_parents_support_break(),
    {
        let n = self.items.len();
        let mut k: usize = 0;
        while k < n
            invariant
                k <= n,
                n == self.spec_items().len(),
                forall|j: int| 0 <= j < k ==> !(#[trigger] self.spec_items()[j]).1.supports_break,
            decreases n - k,
        {
            if self.items[k].1.supports_break {
                return true;
            }
            k = k + 1;
        }
        false
    }
}

} // verus!
