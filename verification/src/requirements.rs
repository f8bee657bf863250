use vstd::prelude::*;

use crate::contexts::{
    BracketStyle, ContextQuery, ContextType, DecisionRequirement, SpecificContextDataStack,
};
use crate::lang::{
    CaretKind, ChevronKind, CommentKind, DeclKind, EqKind, InKind, LogicalLine, LogicalLineType,
    TextLiteralKind, TokenType,
};

verus! {

use crate::contexts::DecisionRequirement as DR;
use crate::lang::KeywordKind as KK;
use crate::lang::LogicalLineType as LLT;
use crate::lang::OperatorKind as OK;
use crate::lang::TokenType as TT;

/// The requirement engine of the optimising line formatter: from a two-token
/// window and the stack of open contexts it derives the hard break
/// constraint of the token at `line_index`.
pub struct InternalOptimisingLineFormatter {
    pub token_types: Vec<TokenType>,
}

/// The type of the line's token at line-relative index `idx`, when the index
/// and the token index it holds are in range.
pub open spec fn spec_line_token(
    types: Seq<TokenType>,
    line: LogicalLine,
    idx: int,
) -> Option<TokenType> {
    if 0 <= idx < line.spec_tokens().len() && line.spec_tokens()[idx] < types.len() {
        Some(types[line.spec_tokens()[idx] as int])
    } else {
        None
    }
}

/// The nearest token before `li` in the line that is neither a comment nor a
/// compiler directive.
pub open spec fn spec_window_prev(
    types: Seq<TokenType>,
    line: LogicalLine,
    li: int,
) -> Option<TokenType>
    decreases li
        when li >= 0
{
    if li <= 0 {
        None
    } else {
        match spec_line_token(types, line, li - 1) {
            Some(t) => if !t.spec_is_comment_or_compiler_directive() {
                Some(t)
            } else {
                spec_window_prev(types, line, li - 1)
            },
            None => spec_window_prev(types, line, li - 1),
        }
    }
}

/// The precedence level of a binary operator token, or `None` where the token
/// is no binary operator: multiplicative operators bind tightest, then
/// additive, then relational.
pub open spec fn spec_operator_precedence(t: TokenType) -> Option<u8> {
    match t {
        TT::Op(OK::Star) | TT::Op(OK::Slash) => Some(2u8),
        TT::Keyword(KK::Div) | TT::Keyword(KK::Mod) | TT::Keyword(KK::And) | TT::Keyword(KK::Shl)
            | TT::Keyword(KK::Shr) | TT::Keyword(KK::As) => Some(2u8),
        TT::Op(OK::Plus) | TT::Op(OK::Minus) => Some(3u8),
        TT::Keyword(KK::Or) | TT::Keyword(KK::Xor) => Some(3u8),
        TT::Op(OK::Equal(EqKind::Comp)) | TT::Op(OK::NotEqual) | TT::Op(
            OK::LessThan(ChevronKind::Comp),
        ) | TT::Op(OK::LessEqual) | TT::Op(OK::GreaterThan(ChevronKind::Comp)) | TT::Op(
            OK::GreaterEqual,
        ) => Some(4u8),
        TT::Keyword(KK::In(InKind::Op)) | TT::Keyword(KK::Is) => Some(4u8),
        _ => None,
    }
}

pub fn get_operator_precedence(t: TokenType) -> (r: Option<u8>)
    ensures
        r == spec_operator_precedence(t),
{
    match t {
        TT::Op(OK::Star) | TT::Op(OK::Slash) => Some(2),
        TT::Keyword(KK::Div) | TT::Keyword(KK::Mod) | TT::Keyword(KK::And) | TT::Keyword(KK::Shl)
            | TT::Keyword(KK::Shr) | TT::Keyword(KK::As) => Some(2),
        TT::Op(OK::Plus) | TT::Op(OK::Minus) => Some(3),
        TT::Keyword(KK::Or) | TT::Keyword(KK::Xor) => Some(3),
        TT::Op(OK::Equal(EqKind::Comp)) | TT::Op(OK::NotEqual) | TT::Op(
            OK::LessThan(ChevronKind::Comp),
        ) | TT::Op(OK::LessEqual) | TT::Op(OK::GreaterThan(ChevronKind::Comp)) | TT::Op(
            OK::GreaterEqual,
        ) => Some(4),
        TT::Keyword(KK::In(InKind::Op)) | TT::Keyword(KK::Is) => Some(4),
        _ => None,
    }
}

/// Whether an operator in this position is binary: the token before it must
/// end an operand.
pub open spec fn spec_is_binary(op: TokenType, prev: Option<TokenType>) -> bool {
    match prev {
        Some(p) => match p {
            TT::Identifier | TT::IdentifierOrKeyword(_) | TT::TextLiteral(_) | TT::NumberLiteral(
                _,
            ) => true,
            TT::Op(OK::RParen) | TT::Op(OK::RBrack) | TT::Op(
                OK::GreaterThan(ChevronKind::Generic),
            ) | TT::Op(OK::Caret(CaretKind::Deref)) => true,
            TT::Keyword(KK::Nil) | TT::Keyword(KK::End) | TT::Keyword(KK::Inherited) | TT::Keyword(
                KK::StringKw,
            ) => true,
            _ => false,
        },
        None => false,
    }
}

pub fn is_binary(op: TokenType, prev: Option<TokenType>) -> (r: bool)
    ensures
        r == spec_is_binary(op, prev),
{
    match prev {
        Some(p) => match p {
            TT::Identifier | TT::IdentifierOrKeyword(_) | TT::TextLiteral(_) | TT::NumberLiteral(
                _,
            ) => true,
            TT::Op(OK::RParen) | TT::Op(OK::RBrack) | TT::Op(
                OK::GreaterThan(ChevronKind::Generic),
            ) | TT::Op(OK::Caret(CaretKind::Deref)) => true,
            TT::Keyword(KK::Nil) | TT::Keyword(KK::End) | TT::Keyword(KK::Inherited) | TT::Keyword(
                KK::StringKw,
            ) => true,
            _ => false,
        },
        None => false,
    }
}

/// The position-derived invariants: a line's first token never breaks, an
/// inline comment never has a break before it, an individual or multiline
/// comment always does, a token after a line comment, multiline comment or
/// unterminated text literal always breaks, and a conditional directive that
/// belongs to another logical line forces a break after it.
pub open spec fn spec_formatting_invariant(
    types: Seq<TokenType>,
    line: LogicalLine,
    li: int,
) -> Option<DecisionRequirement> {
    let prev = spec_line_token(types, line, li - 1);
    let cur = spec_line_token(types, line, li);
    if prev is None {
        Some(DR::MustNotBreak)
    } else if cur matches Some(
        TT::Comment(CommentKind::InlineLine),
    ) || cur matches Some(TT::Comment(CommentKind::InlineBlock)) {
        Some(DR::MustNotBreak)
    } else if cur matches Some(TT::Comment(CommentKind::IndividualLine)) || cur matches Some(
        TT::Comment(CommentKind::IndividualBlock),
    ) || cur matches Some(TT::Comment(CommentKind::MultilineBlock)) {
        Some(DR::MustBreak)
    } else if prev matches Some(TT::Comment(CommentKind::IndividualLine)) || prev matches Some(
        TT::Comment(CommentKind::InlineLine),
    ) || prev matches Some(TT::Comment(CommentKind::MultilineBlock)) || prev matches Some(
        TT::TextLiteral(TextLiteralKind::Unterminated),
    ) {
        Some(DR::MustBreak)
    } else if prev matches Some(TT::ConditionalDirective(_)) && (0 < li
        < line.spec_tokens().len() && line.spec_tokens()[li - 1] + 1 != line.spec_tokens()[li]) {
        // the directive is not adjacent in the token stream: it belongs to
        // another logical line
        Some(DR::MustBreak)
    } else {
        None
    }
}

fn if_else_or(v: Option<bool>, yes: DecisionRequirement, no: DecisionRequirement, el:
    DecisionRequirement) -> (r: DecisionRequirement)
    ensures
        v matches Some(b) ==> r == (if b {
            yes
        } else {
            no
        }),
        v is None ==> r == el,
{
    match v {
        None => el,
        Some(true) => yes,
        Some(false) => no,
    }
}

fn if_else_or_default(v: Option<bool>, yes: DecisionRequirement, no: DecisionRequirement) -> (r:
    DecisionRequirement)
    ensures
        v matches Some(b) ==> r == (if b {
            yes
        } else {
            no
        }),
        v is None ==> r == DR::Indifferent,
{
    if_else_or(v, yes, no, DR::Indifferent)
}


/// The comma rule: an import or export clause breaks at every element; else a
/// comma list's one-element-per-line choice decides; else a broken enclosing
/// bracket forces the break (a semicolon list in between leaves it free).
pub open spec fn spec_comma_rule(
    items: Seq<(ContextType, crate::contexts::ContextData)>,
    lt: LogicalLineType,
) -> DecisionRequirement {
    if lt == LLT::ImportClause || lt == LLT::ExportClause {
        DR::MustBreak
    } else {
        match crate::contexts::spec_ctx_at(items, ContextQuery::CommaListQ) {
            Some(p) => match p.1.one_element_per_line {
                Some(true) => DR::MustBreak,
                Some(false) => DR::MustNotBreak,
                None => spec_comma_parens_rule(items),
            },
            None => spec_comma_parens_rule(items),
        }
    }
}

pub open spec fn spec_comma_parens_rule(
    items: Seq<(ContextType, crate::contexts::ContextData)>,
) -> DecisionRequirement {
    match crate::contexts::spec_ctx_at(items, ContextQuery::BracketsOrSemicolonList) {
        Some(p) => if p.0 == ContextType::SemicolonList {
            DR::Indifferent
        } else if p.1.is_broken {
            DR::MustBreak
        } else {
            DR::Indifferent
        },
        None => DR::Indifferent,
    }
}

/// The semicolon rule: a semicolon list's one-element-per-line choice
/// decides; else a broken enclosing bracket forces the break.
pub open spec fn spec_semicolon_rule(
    items: Seq<(ContextType, crate::contexts::ContextData)>,
) -> DecisionRequirement {
    match crate::contexts::spec_ctx_at(items, ContextQuery::SemicolonListQ) {
        Some(p) => match p.1.one_element_per_line {
            Some(true) => DR::MustBreak,
            Some(false) => DR::MustNotBreak,
            None => spec_semicolon_parens_rule(items),
        },
        None => spec_semicolon_parens_rule(items),
    }
}

pub open spec fn spec_semicolon_parens_rule(
    items: Seq<(ContextType, crate::contexts::ContextData)>,
) -> DecisionRequirement {
    match crate::contexts::spec_ctx_at(items, ContextQuery::AnyBrackets) {
        Some(p) => if p.1.is_broken {
            DR::MustBreak
        } else {
            DR::Indifferent
        },
        None => DR::Indifferent,
    }
}

/// The empty-parens rule: `(` directly followed by `)` must not break unless
/// the enclosing round-bracket context already broke.
pub open spec fn spec_empty_parens_rule(
    items: Seq<(ContextType, crate::contexts::ContextData)>,
) -> DecisionRequirement {
    match crate::contexts::spec_ctx_at(items, ContextQuery::RoundBrackets) {
        Some(p) => if p.1.is_child_broken || p.1.is_broken {
            DR::MustBreak
        } else {
            DR::MustNotBreak
        },
        None => DR::MustNotBreak,
    }
}

/// The directive-list rule: a routine-header or property directive breaks
/// exactly when the directive list chose one element per line.
pub open spec fn spec_directive_list_rule(
    items: Seq<(ContextType, crate::contexts::ContextData)>,
) -> DecisionRequirement {
    match crate::contexts::spec_ctx_at(items, ContextQuery::DirectiveListQ) {
        Some(p) => match p.1.one_element_per_line {
            Some(true) => DR::MustBreak,
            Some(false) => DR::MustNotBreak,
            None => DR::Indifferent,
        },
        None => DR::Indifferent,
    }
}

impl InternalOptimisingLineFormatter {
    pub open spec fn spec_types(&self) -> Seq<TokenType> {
        self.token_types@
    }

    fn get_token_type_for_line_index(&self, line: &LogicalLine, li: usize) -> (r: Option<TokenType>)
        ensures
            r == spec_line_token(self.spec_types(), *line, li as int),
    {
        let toks = line.get_tokens();
        if li < toks.len() && toks[li] < self.token_types.len() {
            Some(self.token_types[toks[li]])
        } else {
            None
        }
    }

    /// The two-token window: the nearest preceding token that is neither a
    /// comment nor a compiler directive, and the token at `line_index`.
    fn get_token_type_window(&self, line_index: usize, line: &LogicalLine) -> (r: (
        Option<TokenType>,
        Option<TokenType>,
    ))
        ensures
            r.0 == spec_window_prev(self.spec_types(), *line, line_index as int),
            r.1 == spec_line_token(self.spec_types(), *line, line_index as int),
            r.0 matches Some(t) ==> !t.spec_is_comment_or_compiler_directive(),
    {
        let mut k: usize = line_index;
        while k > 0
            invariant
                k <= line_index,
                spec_window_prev(self.spec_types(), *line, line_index as int) == spec_window_prev(
                    self.spec_types(),
                    *line,
                    k as int,
                ),
            decreases k,
        {
            match self.get_token_type_for_line_index(line, k - 1) {
                Some(t) => {
                    if !t.is_comment_or_compiler_directive() {
                        return (Some(t), self.get_token_type_for_line_index(line, line_index));
                    }
                },
                None => {},
            }
            k = k - 1;
        }
        (None, self.get_token_type_for_line_index(line, line_index))
    }

    /// The position-derived invariant of the token at `line_index`, if any.
    pub fn get_formatting_invariant(&self, line_index: usize, line: &LogicalLine) -> (r: Option<
        DecisionRequirement,
    >)
        ensures
            r == spec_formatting_invariant(self.spec_types(), *line, line_index as int),
    {
        let prev = if line_index == 0 {
            None
        } else {
            self.get_token_type_for_line_index(line, line_index - 1)
        };
        let cur = self.get_token_type_for_line_index(line, line_index);
        if prev.is_none() {
            return Some(DR::MustNotBreak);
        }
        match cur {
            Some(TT::Comment(CommentKind::InlineLine)) | Some(
                TT::Comment(CommentKind::InlineBlock),
            ) => {
                return Some(DR::MustNotBreak);
            },
            Some(TT::Comment(CommentKind::IndividualLine)) | Some(
                TT::Comment(CommentKind::IndividualBlock),
            ) | Some(TT::Comment(CommentKind::MultilineBlock)) => {
                return Some(DR::MustBreak);
            },
            _ => {},
        }
        match prev {
            Some(TT::Comment(CommentKind::IndividualLine)) | Some(
                TT::Comment(CommentKind::InlineLine),
            ) | Some(TT::Comment(CommentKind::MultilineBlock)) | Some(
                TT::TextLiteral(TextLiteralKind::Unterminated),
            ) => {
                return Some(DR::MustBreak);
            },
            Some(TT::ConditionalDirective(_)) => {
                let toks = line.get_tokens();
                if 0 < line_index && line_index < toks.len() {
                    let a = toks[line_index - 1];
                    let b = toks[line_index];
                    if !(b > 0 && a == b - 1) {
                        return Some(DR::MustBreak);
                    }
                }
            },
            _ => {},
        }
        None
    }

    /// The hard break requirement of the token at `line_index`, derived from
    /// the two-token window and the open contexts. With an empty context
    /// stack the position is invalid; where no enclosing context accepts
    /// breaks, no Must-Break is emitted; the position-derived invariants are
    /// honoured as stated by `spec_formatting_invariant`.
    pub fn get_formatting_requirement(
        &self,
        line_index: usize,
        line: &LogicalLine,
        contexts_data: &SpecificContextDataStack,
    ) -> (r: DecisionRequirement)
        ensures
            (r == DR::Invalid) <==> contexts_data.spec_items().len() == 0,
            !contexts_data.spec_parents_support_break() ==> r != DR::MustBreak,
            contexts_data.spec_items().len() > 0 ==> match spec_formatting_invariant(
                self.spec_types(),
                *line,
                line_index as int,
            ) {
                Some(v) => r == v.spec_map_can_break(contexts_data.spec_parents_support_break()),
                None => true,
            },
            ({
                let items = contexts_data.spec_items();
                let psb = contexts_data.spec_parents_support_break();
                let w0 = spec_window_prev(self.spec_types(), *line, line_index as int);
                let w1 = spec_line_token(self.spec_types(), *line, line_index as int);
                let silent = items.len() > 0 && spec_formatting_invariant(
                    self.spec_types(),
                    *line,
                    line_index as int,
                ) is None;
                &&& (silent && w0 == Some(TT::Op(OK::LParen)) && w1 == Some(TT::Op(OK::RParen))
                    ==> r == spec_empty_parens_rule(items).spec_map_can_break(psb))
                &&& (silent && w0 == Some(TT::Op(OK::LBrack)) && w1 == Some(TT::Op(OK::RBrack))
                    ==> r == DR::MustNotBreak)
                &&& (silent && w0 == Some(TT::Op(OK::Comma)) && !(w1 matches Some(
                    TT::Op(OK::Caret(CaretKind::Deref)),
                )) && !(w1 matches Some(TT::Keyword(kk)) && kk.spec_is_directive() && (
                line.spec_line_type() == LLT::RoutineHeader || line.spec_line_type()
                    == LLT::PropertyDeclaration)) ==> r == spec_comma_rule(
                    items,
                    line.spec_line_type(),
                ).spec_map_can_break(psb))
                &&& (silent && w0 == Some(TT::Op(OK::Semicolon)) && !(w1 matches Some(
                    TT::Op(OK::Caret(CaretKind::Deref)),
                )) && !(w1 matches Some(TT::Keyword(kk)) && kk.spec_is_directive() && (
                line.spec_line_type() == LLT::RoutineHeader || line.spec_line_type()
                    == LLT::PropertyDeclaration)) ==> r == spec_semicolon_rule(
                    items,
                ).spec_map_can_break(psb))
                &&& (silent && (w1 matches Some(TT::Keyword(kk)) && kk.spec_is_directive()) && (
                line.spec_line_type() == LLT::RoutineHeader || line.spec_line_type()
                    == LLT::PropertyDeclaration) && !(w0 matches Some(TT::ConditionalDirective(_)))
                    && w0 != Some(TT::Op(OK::Caret(CaretKind::Type))) && !((w0 == Some(
                    TT::Keyword(KK::Class),
                ) || w0 == Some(TT::Keyword(KK::Record))) && (w1 == Some(TT::Keyword(KK::Helper))
                    || w1 == Some(TT::Keyword(KK::Abstract)) || w1 == Some(
                    TT::Keyword(KK::Sealed),
                ))) ==> r == spec_directive_list_rule(items).spec_map_can_break(psb))
                &&& (silent && (w0 matches Some(TT::ConditionalDirective(k)) && k.spec_is_end())
                    && w1 == Some(TT::Identifier) ==> r == (match crate::contexts::spec_ctx_at(
                    items,
                    ContextQuery::AnyContext,
                ) {
                    Some(p) => if p.1.is_child_broken {
                        DR::MustBreak
                    } else {
                        DR::Indifferent
                    },
                    None => DR::Indifferent,
                }).spec_map_can_break(psb))
                &&& (silent && (w0 matches Some(TT::ConditionalDirective(k)) && k.spec_is_end())
                    && (w1 matches Some(TT::NumberLiteral(_))) ==> r
                    == DR::MustBreak.spec_map_can_break(psb))
            }),
    {
        let last = contexts_data.last();
        let (last_context, ctx_data): (ContextType, crate::contexts::ContextData) = match last {
            Some(p) => (p.0, p.1),
            None => {
                return DR::Invalid;
            },
        };
        let parents_support_break = contexts_data.parents_support_break();

        match self.get_formatting_invariant(line_index, line) {
            Some(value) => {
                return value.map_can_break(parents_support_break);
            },
            None => {},
        }

        let window = self.get_token_type_window(line_index, line);
        let line_type = line.get_line_type();
        let requirement = match window {
            (Some(TT::Op(OK::LParen)), Some(TT::Op(OK::RParen))) => {
                let found = contexts_data.get_last_context(ContextQuery::RoundBrackets);
                match found {
                    Some(p) => if_else_or(
                        Some(p.1.is_child_broken || p.1.is_broken),
                        DR::MustBreak,
                        DR::MustNotBreak,
                        DR::MustNotBreak,
                    ),
                    None => DR::MustNotBreak,
                }
            },
            (Some(TT::Op(OK::LBrack)), Some(TT::Op(OK::RBrack))) => DR::MustNotBreak,
            (Some(TT::Op(OK::GreaterThan(ChevronKind::Generic))), Some(TT::Op(OK::LParen))) => {
                DR::MustNotBreak
            },
            // `<>` is not a valid type parameter list, and will be read as
            // a not-equal operator
            (
                Some(TT::Keyword(KK::Class)) | Some(TT::Keyword(KK::Record)),
                Some(TT::Keyword(KK::Helper)) | Some(TT::Keyword(KK::Abstract)) | Some(
                    TT::Keyword(KK::Sealed),
                ),
            ) => DR::MustNotBreak,
            (
                Some(TT::Keyword(KK::Helper)) | Some(TT::Op(OK::RParen)),
                Some(TT::Keyword(KK::For)),
            ) => DR::MustNotBreak,
            (Some(TT::Op(OK::Caret(CaretKind::Type))), _) => DR::MustNotBreak,
            (_, Some(TT::Op(OK::Caret(CaretKind::Deref)))) => DR::MustNotBreak,
            (_, Some(TT::Keyword(kk))) if (matches!(
                line_type,
                LLT::RoutineHeader | LLT::PropertyDeclaration,
            ) && kk.is_directive()) => {
                let found = contexts_data.get_last_context(ContextQuery::DirectiveListQ);
                let v = match found {
                    Some(p) => p.1.one_element_per_line,
                    None => None,
                };
                if_else_or_default(v, DR::MustBreak, DR::MustNotBreak)
            },
            (Some(TT::Op(OK::Comma)), _) => {
                let import_requirement: Option<DecisionRequirement> = if matches!(
                    line_type,
                    LLT::ImportClause | LLT::ExportClause,
                ) {
                    Some(DR::MustBreak)
                } else {
                    None
                };
                let comma_list_requirement: Option<DecisionRequirement> = match contexts_data.get_last_context(
                    ContextQuery::CommaListQ,
                ) {
                    Some(p) => match p.1.one_element_per_line {
                        Some(true) => Some(DR::MustBreak),
                        Some(false) => Some(DR::MustNotBreak),
                        None => None,
                    },
                    None => None,
                };
                let parens_requirement: Option<DecisionRequirement> = match contexts_data.get_last_context(
                    ContextQuery::BracketsOrSemicolonList,
                ) {
                    Some(p) => if matches!(p.0, ContextType::SemicolonList) {
                        None
                    } else if p.1.is_broken {
                        Some(DR::MustBreak)
                    } else {
                        Some(DR::Indifferent)
                    },
                    None => None,
                };
                match import_requirement {
                    Some(v) => v,
                    None => match comma_list_requirement {
                        Some(v) => v,
                        None => match parens_requirement {
                            Some(v) => v,
                            None => DR::Indifferent,
                        },
                    },
                }
            },
            (Some(TT::Op(OK::Semicolon)), _) => {
                let semicolon_list_requirement: Option<DecisionRequirement> = match contexts_data.get_last_context(
                    ContextQuery::SemicolonListQ,
                ) {
                    Some(p) => match p.1.one_element_per_line {
                        Some(true) => Some(DR::MustBreak),
                        Some(false) => Some(DR::MustNotBreak),
                        None => None,
                    },
                    None => None,
                };
                let parens_requirement: Option<DecisionRequirement> = match contexts_data.get_last_context(
                    ContextQuery::AnyBrackets,
                ) {
                    Some(p) => if p.1.is_broken {
                        Some(DR::MustBreak)
                    } else {
                        Some(DR::Indifferent)
                    },
                    None => None,
                };
                match semicolon_list_requirement {
                    Some(v) => v,
                    None => match parens_requirement {
                        Some(v) => v,
                        None => DR::Indifferent,
                    },
                }
            },
            (
                Some(TT::Keyword(KK::Class)) | Some(TT::Keyword(KK::To)),
                Some(TT::Keyword(KK::Function)) | Some(TT::Keyword(KK::Procedure)) | Some(
                    TT::Keyword(KK::Constructor),
                ) | Some(TT::Keyword(KK::Destructor)),
            ) => DR::MustNotBreak,
            (
                Some(TT::Keyword(KK::Function)) | Some(TT::Keyword(KK::Procedure)) | Some(
                    TT::Keyword(KK::Constructor),
                ) | Some(TT::Keyword(KK::Destructor)),
                Some(TT::Identifier) | Some(TT::ConditionalDirective(_)),
            ) => DR::MustNotBreak,
            (Some(TT::ConditionalDirective(kind)), _) if kind.is_if() => {
                // an `$if` directive has no bearing on the layout around it
                DR::Indifferent
            },
            (_, Some(TT::ConditionalDirective(kind))) if kind.is_if() => DR::Indifferent,
            (Some(TT::ConditionalDirective(kind)), _) if kind.is_else() => {
                let found = contexts_data.get_last_context(ContextQuery::ConditionalDirectiveQ);
                let v = match found {
                    Some(p) => p.1.one_element_per_line,
                    None => None,
                };
                if_else_or_default(v, DR::MustBreak, DR::MustNotBreak)
            },
            (_, Some(TT::ConditionalDirective(_))) => {
                let found = contexts_data.get_last_context(ContextQuery::ConditionalDirectiveQ);
                let v = match found {
                    Some(p) => p.1.one_element_per_line,
                    None => None,
                };
                if_else_or_default(v, DR::MustBreak, DR::MustNotBreak)
            },
            (
                Some(TT::Identifier) | Some(TT::Keyword(KK::Interface)) | Some(
                    TT::Keyword(KK::Class),
                ) | Some(TT::Keyword(KK::Helper)) | Some(TT::Keyword(KK::Abstract)) | Some(
                    TT::Keyword(KK::Sealed),
                ) | Some(TT::Keyword(KK::Function)) | Some(TT::Keyword(KK::Procedure)) | Some(
                    TT::Keyword(KK::Array),
                ) | Some(TT::Keyword(KK::StringKw)),
                Some(TT::Op(OK::LParen)) | Some(TT::Op(OK::LBrack)) | Some(
                    TT::Op(OK::LessThan(ChevronKind::Generic)),
                ),
            ) => DR::MustNotBreak,
            (Some(TT::Op(OK::Colon)), Some(TT::Op(OK::LParen))) if line_type
                == LLT::VariantRecordCaseArm => DR::MustNotBreak,
            (
                Some(TT::Op(OK::LParen)) | Some(TT::Op(OK::LBrack)) | Some(
                    TT::Op(OK::LessThan(ChevronKind::Generic)),
                ),
                _,
            ) => {
                let found = contexts_data.get_last_context(ContextQuery::AnyBrackets);
                let v = match found {
                    Some(p) => Some(
                        matches!(p.0, ContextType::Brackets(_, BracketStyle::Invisible)),
                    ),
                    None => None,
                };
                if_else_or_default(v, DR::MustNotBreak, DR::Indifferent)
            },
            (Some(TT::Keyword(KK::Reference)), Some(TT::Keyword(KK::To))) => DR::MustNotBreak,
            (
                _,
                Some(TT::Op(OK::RParen)) | Some(TT::Op(OK::GreaterThan(ChevronKind::Generic)))
                    | Some(TT::Op(OK::RBrack)),
            ) => {
                let found = contexts_data.get_last_context(ContextQuery::AnyBrackets);
                let v = match found {
                    Some(p) => Some(
                        matches!(
                            p.0,
                            ContextType::Brackets(
                                _,
                                BracketStyle::BreakClose | BracketStyle::Expanded,
                            )
                        ) && p.1.is_broken,
                    ),
                    None => None,
                };
                if_else_or_default(v, DR::MustBreak, DR::MustNotBreak)
            },
            (
                _,
                Some(TT::Op(OK::Comma)) | Some(TT::Op(OK::Semicolon)) | Some(TT::Op(OK::Colon))
                    | Some(TT::Op(OK::Assign)),
            ) => DR::MustNotBreak,
            (_, Some(TT::Op(OK::Dot))) if last_context == ContextType::MemberAccess => {
                let found = contexts_data.get_last_context(
                    ContextQuery::RoutineHeaderOrBracketsOrType,
                );
                let in_routine_header = match found {
                    Some(p) => matches!(p.0, ContextType::RoutineHeader),
                    None => false,
                };
                if in_routine_header {
                    DR::MustNotBreak
                } else {
                    if_else_or_default(
                        ctx_data.one_element_per_line,
                        DR::MustBreak,
                        DR::MustNotBreak,
                    )
                }
            },
            (_, Some(TT::Op(OK::Equal(EqKind::Decl)))) => DR::MustNotBreak,
            (
                _,
                Some(TT::Keyword(KK::In(InKind::ForLoop))) | Some(TT::Keyword(KK::To)) | Some(
                    TT::Keyword(KK::Downto),
                ),
            ) => {
                let found = contexts_data.get_last_context(ContextQuery::ForLoopQ);
                let v = match found {
                    Some(p) => Some(p.1.is_child_broken),
                    None => None,
                };
                if_else_or_default(v, DR::MustBreak, DR::Indifferent)
            },
            (Some(TT::Keyword(KK::In(InKind::ForLoop))), _) if line_type == LLT::ForLoop => {
                DR::MustNotBreak
            },
            (Some(TT::Keyword(KK::To)), _) if line_type == LLT::ForLoop => DR::MustNotBreak,
            (Some(TT::Keyword(KK::Downto)), _) if line_type == LLT::ForLoop => DR::MustNotBreak,
            (_, Some(TT::Keyword(KK::At))) => {
                let found = contexts_data.get_last_context(ContextQuery::RaiseAtQ);
                let v = match found {
                    Some(p) => Some(p.1.is_broken || p.1.is_child_broken),
                    None => None,
                };
                if_else_or_default(v, DR::MustBreak, DR::Indifferent)
            },
            (prev, Some(op)) if (matches!(op, TT::Op(_) | TT::Keyword(_))
                && get_operator_precedence(op).is_some() && is_binary(op, prev)) => {
                let v = match contexts_data.last() {
                    Some(p) => if matches!(p.0, ContextType::Precedence(_)) {
                        p.1.one_element_per_line
                    } else {
                        None
                    },
                    None => None,
                };
                if_else_or_default(v, DR::MustBreak, DR::MustNotBreak)
            },
            (
                Some(TT::Op(OK::Equal(EqKind::Decl))),
                Some(TT::Keyword(KK::Class)) | Some(TT::Keyword(KK::Interface)) | Some(
                    TT::Keyword(KK::Record),
                ) | Some(TT::Keyword(KK::DispInterface)) | Some(TT::Keyword(KK::Packed)) | Some(
                    TT::Keyword(KK::Object),
                ),
            ) => DR::Indifferent,
            (Some(TT::Op(OK::Equal(EqKind::Decl))) | Some(TT::Op(OK::Assign)), _) => {
                let found = contexts_data.get_last_context(
                    ContextQuery::TypedAssignmentOrAssignment,
                );
                let v = match found {
                    Some(p) => Some(p.1.is_broken || p.1.is_child_broken),
                    None => None,
                };
                if_else_or_default(v, DR::MustBreak, DR::Indifferent)
            },
            (Some(op), _) if (matches!(op, TT::Op(_) | TT::Keyword(_))
                && get_operator_precedence(op).is_some()) => DR::MustNotBreak,
            (_, Some(TT::Keyword(KK::End))) => {
                let found = contexts_data.get_last_context(ContextQuery::CommaElemOrAssignRHS);
                let v = match found {
                    Some(p) => p.1.break_anonymous_routine,
                    None => None,
                };
                if_else_or_default(v, DR::MustBreak, DR::MustNotBreak)
            },
            (
                Some(TT::Keyword(KK::If)) | Some(TT::Keyword(KK::Case)) | Some(
                    TT::Keyword(KK::While),
                ) | Some(TT::Keyword(KK::Until)) | Some(TT::Keyword(KK::On)),
                _,
            ) => DR::MustNotBreak,
            // `with` is treated like a `uses` clause when it carries a comma
            // list, and like an `if` statement otherwise
            (Some(TT::Keyword(KK::With)), _) => {
                let found = contexts_data.get_last_context(ContextQuery::CommaListOrGuardClause);
                let v = match found {
                    Some(p) => Some(matches!(p.0, ContextType::CommaList)),
                    None => None,
                };
                if_else_or_default(v, DR::Indifferent, DR::MustNotBreak)
            },
            (Some(TT::Keyword(KK::Raise)) | Some(TT::Keyword(KK::At)), _) => DR::MustNotBreak,
            // a `set of` anonymous enumeration
            (Some(TT::Keyword(KK::Of)), Some(TT::Op(OK::LParen))) => DR::MustNotBreak,
            // `procedure of object`, allowing `object` to wrap
            (Some(TT::Keyword(KK::Of)), Some(TT::Keyword(KK::Object))) => {
                let found = contexts_data.get_last_context(ContextQuery::AssignRHSQ);
                let v = match found {
                    Some(p) => Some(p.1.is_child_broken),
                    None => None,
                };
                if_else_or_default(v, DR::Indifferent, DR::MustNotBreak)
            },
            (Some(TT::Keyword(KK::Of)), _) => {
                let found = contexts_data.get_last_context(ContextQuery::BaseQ);
                let v = match found {
                    Some(p) => Some(p.1.is_child_broken),
                    None => None,
                };
                if_else_or(v, DR::Indifferent, DR::MustNotBreak, DR::Indifferent)
            },
            (_, Some(TT::Keyword(KK::Then)) | Some(TT::Keyword(KK::Do)) | Some(
                TT::Keyword(KK::Of),
            )) => DR::MustNotBreak,
            (
                Some(TT::Keyword(KK::Then)) | Some(TT::Keyword(KK::Do)),
                Some(TT::Keyword(KK::Begin)),
            ) => {
                let found = contexts_data.get_last_context(ContextQuery::ControlFlowBeginQ);
                let v = match found {
                    Some(p) => Some(p.1.is_child_broken),
                    None => None,
                };
                if_else_or_default(v, DR::MustBreak, DR::Indifferent)
            },
            (_, Some(TT::Keyword(KK::Else))) => DR::MustBreak,
            (
                Some(_),
                Some(TT::Keyword(KK::Label)) | Some(TT::Keyword(KK::Const(DeclKind::AnonSection)))
                    | Some(TT::Keyword(KK::Type)) | Some(
                    TT::Keyword(KK::Var(DeclKind::AnonSection)),
                ) | Some(TT::Keyword(KK::ThreadVar)) | Some(TT::Keyword(KK::Begin)),
            ) => {
                let found = contexts_data.get_last_context(ContextQuery::CommaElemOrAssignRHS);
                let v = match found {
                    Some(p) => p.1.break_anonymous_routine,
                    None => None,
                };
                if_else_or_default(v, DR::MustBreak, DR::MustNotBreak)
            },
            (
                Some(TT::Keyword(KK::Const(DeclKind::Inline))) | Some(
                    TT::Keyword(KK::Const(DeclKind::Param)),
                ) | Some(TT::Keyword(KK::Var(DeclKind::Inline))) | Some(
                    TT::Keyword(KK::Var(DeclKind::Param)),
                ),
                _,
            ) => DR::MustNotBreak,
            (Some(TT::Keyword(KK::Property)), Some(TT::Identifier)) => DR::MustNotBreak,
            (Some(TT::Keyword(KK::For)), _) if line_type == LLT::ForLoop => DR::MustNotBreak,
            _ => DR::Indifferent,
        };

        let requirement = match (window, requirement) {
            ((Some(TT::ConditionalDirective(kind)), Some(TT::Identifier)), DR::Indifferent) if kind.is_end() => {
                let found = contexts_data.get_last_context(ContextQuery::AnyContext);
                let v = match found {
                    Some(p) => Some(p.1.is_child_broken),
                    None => None,
                };
                if_else_or_default(v, DR::MustBreak, DR::Indifferent)
            },
            ((Some(TT::ConditionalDirective(kind)), Some(_)), DR::Indifferent) if kind.is_end() => {
                DR::MustBreak
            },
            _ => requirement,
        };
        requirement.map_can_break(parents_support_break)
    }
}

} // verus!
