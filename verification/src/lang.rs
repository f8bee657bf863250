use vstd::prelude::*;

verus! {

/// The syntactic roles a `const` or `var` keyword can take: a file-scope
/// section header, an anonymous (local) section header, an inline declaration
/// keyword, or a parameter modifier.
#[derive(Debug, PartialEq, Eq, Copy, Clone, Structural)]
pub enum DeclKind {
    Section,
    AnonSection,
    Inline,
    Param,
}

/// The syntactic roles of the `in` keyword: a set/membership operator, or the
/// iteration keyword of a `for .. in` loop.
#[derive(Debug, PartialEq, Eq, Copy, Clone, Structural)]
pub enum InKind {
    Op,
    ForLoop,
}

/// `=` as a comparison, or as the binder of a declaration.
#[derive(Debug, PartialEq, Eq, Copy, Clone, Structural)]
pub enum EqKind {
    Comp,
    Decl,
}

/// `<` / `>` as comparison operators, or as generic type-parameter chevrons.
#[derive(Debug, PartialEq, Eq, Copy, Clone, Structural)]
pub enum ChevronKind {
    Comp,
    Generic,
}

/// `^` as a pointer-type former, or as a dereference.
#[derive(Debug, PartialEq, Eq, Copy, Clone, Structural)]
pub enum CaretKind {
    Type,
    Deref,
}

#[derive(Debug, PartialEq, Eq, Copy, Clone, Structural)]
pub enum KeywordKind {
    // Pure keywords
    And,
    Array,
    As,
    Asm,
    Begin,
    Case,
    Class,
    Const(DeclKind),
    Constructor,
    Destructor,
    DispInterface,
    Div,
    Do,
    Downto,
    Else,
    End,
    Except,
    Exports,
    File,
    Finalization,
    Finally,
    For,
    Function,
    Goto,
    If,
    Implementation,
    In(InKind),
    Inherited,
    Initialization,
    Inline,
    Interface,
    Is,
    Label,
    Library,
    Mod,
    Nil,
    Not,
    Object,
    Of,
    Or,
    Packed,
    Procedure,
    Program,
    Property,
    Raise,
    Record,
    Repeat,
    ResourceString,
    SetOf,
    Shl,
    Shr,
    StringKw,
    Then,
    ThreadVar,
    To,
    Try,
    Type,
    Unit,
    Until,
    Uses,
    Var(DeclKind),
    While,
    With,
    Xor,
    // Impure keywords
    Absolute,
    Abstract,
    Add,
    Align,
    Assembler,
    At,
    Automated,
    Cdecl,
    Contains,
    Default,
    Delayed,
    Deprecated,
    DispId,
    Dynamic,
    Experimental,
    Export,
    External,
    Far,
    Final,
    Forward,
    Helper,
    Implements,
    Index,
    Local,
    Message,
    Name,
    Near,
    NoDefault,
    On,
    Operator,
    Out,
    Overload,
    Override,
    Package,
    Pascal,
    Platform,
    Private,
    Protected,
    Public,
    Published,
    Read,
    ReadOnly,
    Reference,
    Register,
    Reintroduce,
    Remove,
    Requires,
    Resident,
    SafeCall,
    Sealed,
    Static,
    StdCall,
    Stored,
    Strict,
    Unsafe,
    VarArgs,
    Variant,
    Virtual,
    Write,
    WriteOnly,
}

impl KeywordKind {
    /// The impure keywords that act as routine or property directives when
    /// they trail a routine header or property declaration.
    pub open spec fn spec_is_directive(self) -> bool {
        match self {
            KeywordKind::Abstract
            | KeywordKind::Assembler
            | KeywordKind::Cdecl
            | KeywordKind::Default
            | KeywordKind::Delayed
            | KeywordKind::Deprecated
            | KeywordKind::DispId
            | KeywordKind::Dynamic
            | KeywordKind::Experimental
            | KeywordKind::Export
            | KeywordKind::External
            | KeywordKind::Far
            | KeywordKind::Final
            | KeywordKind::Forward
            | KeywordKind::Implements
            | KeywordKind::Index
            | KeywordKind::Inline
            | KeywordKind::Local
            | KeywordKind::Message
            | KeywordKind::Name
            | KeywordKind::Near
            | KeywordKind::NoDefault
            | KeywordKind::Overload
            | KeywordKind::Override
            | KeywordKind::Pascal
            | KeywordKind::Platform
            | KeywordKind::Read
            | KeywordKind::ReadOnly
            | KeywordKind::Register
            | KeywordKind::Reintroduce
            | KeywordKind::Resident
            | KeywordKind::SafeCall
            | KeywordKind::Static
            | KeywordKind::StdCall
            | KeywordKind::Stored
            | KeywordKind::Unsafe
            | KeywordKind::VarArgs
            | KeywordKind::Virtual
            | KeywordKind::Write
            | KeywordKind::WriteOnly => true,
            _ => false,
        }
    }

    pub fn is_directive(self) -> (r: bool)
        ensures
            r == self.spec_is_directive(),
    {
        match self {
            KeywordKind::Abstract
            | KeywordKind::Assembler
            | KeywordKind::Cdecl
            | KeywordKind::Default
            | KeywordKind::Delayed
            | KeywordKind::Deprecated
            | KeywordKind::DispId
            | KeywordKind::Dynamic
            | KeywordKind::Experimental
            | KeywordKind::Export
            | KeywordKind::External
            | KeywordKind::Far
            | KeywordKind::Final
            | KeywordKind::Forward
            | KeywordKind::Implements
            | KeywordKind::Index
            | KeywordKind::Inline
            | KeywordKind::Local
            | KeywordKind::Message
            | KeywordKind::Name
            | KeywordKind::Near
            | KeywordKind::NoDefault
            | KeywordKind::Overload
            | KeywordKind::Override
            | KeywordKind::Pascal
            | KeywordKind::Platform
            | KeywordKind::Read
            | KeywordKind::ReadOnly
            | KeywordKind::Register
            | KeywordKind::Reintroduce
            | KeywordKind::Resident
            | KeywordKind::SafeCall
            | KeywordKind::Static
            | KeywordKind::StdCall
            | KeywordKind::Stored
            | KeywordKind::Unsafe
            | KeywordKind::VarArgs
            | KeywordKind::Virtual
            | KeywordKind::Write
            | KeywordKind::WriteOnly => true,
            _ => false,
        }
    }
}

#[derive(Debug, PartialEq, Eq, Copy, Clone, Structural)]
pub enum OperatorKind {
    Plus,
    Minus,
    Star,
    Slash,
    Assign,
    Comma,
    Semicolon,
    Colon,
    Equal(EqKind),
    NotEqual,
    LessThan(ChevronKind),
    LessEqual,
    GreaterThan(ChevronKind),
    GreaterEqual,
    LBrack,
    RBrack,
    LParen,
    RParen,
    Caret(CaretKind),
    AddressOf,
    Dot,
    DotDot,
}

#[derive(Debug, PartialEq, Eq, Copy, Clone, Structural)]
pub enum NumberLiteralKind {
    Decimal,
    Octal,
    Hex,
    Binary,
}

#[derive(Debug, PartialEq, Eq, Copy, Clone, Structural)]
pub enum CommentKind {
    InlineBlock,
    IndividualBlock,
    MultilineBlock,
    InlineLine,
    IndividualLine,
}

#[derive(Debug, PartialEq, Eq, Copy, Clone, Structural)]
pub enum ConditionalDirectiveKind {
    If,
    Ifdef,
    Ifndef,
    Ifopt,
    Elseif,
    Else,
    Ifend,
    Endif,
}

impl ConditionalDirectiveKind {
    pub open spec fn spec_is_if(self) -> bool {
        match self {
            ConditionalDirectiveKind::If
            | ConditionalDirectiveKind::Ifdef
            | ConditionalDirectiveKind::Ifndef
            | ConditionalDirectiveKind::Ifopt => true,
            _ => false,
        }
    }

    pub open spec fn spec_is_else(self) -> bool {
        match self {
            ConditionalDirectiveKind::Elseif | ConditionalDirectiveKind::Else => true,
            _ => false,
        }
    }

    pub open spec fn spec_is_end(self) -> bool {
        match self {
            ConditionalDirectiveKind::Ifend | ConditionalDirectiveKind::Endif => true,
            _ => false,
        }
    }

    pub fn is_if(self) -> (r: bool)
        ensures
            r == self.spec_is_if(),
    {
        matches!(
            self,
            ConditionalDirectiveKind::If
            | ConditionalDirectiveKind::Ifdef
            | ConditionalDirectiveKind::Ifndef
            | ConditionalDirectiveKind::Ifopt
        )
    }

    pub fn is_else(self) -> (r: bool)
        ensures
            r == self.spec_is_else(),
    {
        matches!(self, ConditionalDirectiveKind::Elseif | ConditionalDirectiveKind::Else)
    }

    pub fn is_end(self) -> (r: bool)
        ensures
            r == self.spec_is_end(),
    {
        matches!(self, ConditionalDirectiveKind::Ifend | ConditionalDirectiveKind::Endif)
    }
}

#[derive(Debug, PartialEq, Eq, Copy, Clone, Structural)]
pub enum TextLiteralKind {
    SingleLine,
    MultiLine,
    Unterminated,
}

#[derive(Debug, PartialEq, Eq, Copy, Clone, Structural)]
pub enum TokenType {
    Op(OperatorKind),
    Identifier,
    IdentifierOrKeyword(KeywordKind),
    Keyword(KeywordKind),
    TextLiteral(TextLiteralKind),
    NumberLiteral(NumberLiteralKind),
    ConditionalDirective(ConditionalDirectiveKind),
    CompilerDirective,
    Comment(CommentKind),
    Eof,
    Unknown,
}

impl TokenType {
    pub open spec fn spec_is_comment_or_compiler_directive(self) -> bool {
        match self {
            TokenType::Comment(_) | TokenType::CompilerDirective => true,
            _ => false,
        }
    }

    pub fn is_comment_or_compiler_directive(self) -> (r: bool)
        ensures
            r == self.spec_is_comment_or_compiler_directive(),
    {
        matches!(self, TokenType::Comment(_) | TokenType::CompilerDirective)
    }
}

#[derive(Debug, Hash, PartialEq, Eq, Copy, Clone, Structural)]
pub enum LogicalLineType {
    ImportClause,
    ExportClause,
    Declaration,
    RoutineHeader,
    PropertyDeclaration,
    InlineDeclaration,
    CaseHeader,
    CaseArm,
    VariantRecordCaseArm,
    Attribute,
    Guid,
    ConditionalDirective,
    CompilerDirective,
    AsmInstruction,
    ForLoop,
    Assignment,
    ControlFlow,
    Unknown,
    Eof,
    Voided,
}

/// A parser-level grouping of raw tokens into one syntactic unit: the indices
/// of its tokens, the index of the token it nests under (if any), its nesting
/// level and its kind tag.
#[derive(Debug, PartialEq, Eq)]
pub struct LogicalLine {
    parent_token: Option<usize>,
    level: usize,
    tokens: Vec<usize>,
    line_type: LogicalLineType,
}

impl LogicalLine {
    pub closed spec fn spec_parent_token(&self) -> Option<usize> {
        self.parent_token
    }

    pub closed spec fn spec_level(&self) -> usize {
        self.level
    }

    pub closed spec fn spec_tokens(&self) -> Seq<usize> {
        self.tokens@
    }

    pub closed spec fn spec_line_type(&self) -> LogicalLineType {
        self.line_type
    }

    pub fn new(
        parent_token: Option<usize>,
        level: usize,
        tokens: Vec<usize>,
        line_type: LogicalLineType,
    ) -> (r: Self)
        ensures
            r.spec_parent_token() == parent_token,
            r.spec_level() == level,
            r.spec_tokens() == tokens@,
            r.spec_line_type() == line_type,
    {
        LogicalLine { parent_token, level, tokens, line_type }
    }

    pub fn get_parent_token(&self) -> (r: Option<usize>)
        ensures
            r == self.spec_parent_token(),
    {
        self.parent_token
    }

    pub fn get_level(&self) -> (r: usize)
        ensures
            r == self.spec_level(),
    {
        self.level
    }

    pub fn get_tokens(&self) -> (r: &Vec<usize>)
        ensures
            r@ == self.spec_tokens(),
    {
        &self.tokens
    }

    pub fn get_tokens_mut(&mut self) -> (r: &mut Vec<usize>)
        ensures
            r@ == old(self).spec_tokens(),
            final(self).spec_tokens() == final(r)@,
            final(self).spec_parent_token() == old(self).spec_parent_token(),
            final(self).spec_level() == old(self).spec_level(),
            final(self).spec_line_type() == old(self).spec_line_type(),
    {
        &mut self.tokens
    }

    pub fn get_line_type(&self) -> (r: LogicalLineType)
        ensures
            r == self.spec_line_type(),
    {
        self.line_type
    }

    /// Voiding is the only way to erase a line after parsing: the line keeps
    /// no tokens and its kind becomes `Voided`; the drained token indices are
    /// handed back to the caller.
    pub fn void_and_drain(&mut self) -> (r: Vec<usize>)
        ensures
            r@ == old(self).spec_tokens(),
            final(self).spec_tokens() == Seq::<usize>::empty(),
            final(self).spec_line_type() == LogicalLineType::Voided,
            final(self).spec_parent_token() == old(self).spec_parent_token(),
            final(self).spec_level() == old(self).spec_level(),
    {
        self.line_type = LogicalLineType::Voided;
        let mut drained: Vec<usize> = Vec::new();
        core::mem::swap(&mut drained, &mut self.tokens);
        assert(self.tokens@ =~= Seq::<usize>::empty());
        drained
    }
}


/// A run of whitespace counted and classified, ready for reconstruction: how
/// many newlines, indentation units, continuation units and single spaces
/// stand before a token, and whether the token is frozen (`ignored`).
#[derive(Debug, Clone)]
pub struct FormattingData {
    pub ignored: bool,
    pub newlines_before: usize,
    pub indentations_before: usize,
    pub continuations_before: usize,
    pub spaces_before: usize,
}

/// How many times `b` occurs in `s`.
pub open spec fn spec_count_byte(s: Seq<u8>, b: u8) -> nat
    decreases s.len(),
{
    if s.len() == 0 {
        0
    } else {
        spec_count_byte(s.drop_last(), b) + (if s.last() == b { 1nat } else { 0nat })
    }
}

/// The index just after the last line-feed byte of `s` (0 when there is none).
pub open spec fn spec_last_line_start(s: Seq<u8>) -> int
    decreases s.len(),
{
    if s.len() == 0 {
        0
    } else if s.last() == 0x0au8 {
        s.len() as int
    } else {
        spec_last_line_start(s.drop_last())
    }
}

/// `s` with every trailing carriage-return byte removed.
pub open spec fn spec_strip_trailing_cr(s: Seq<u8>) -> Seq<u8>
    decreases s.len(),
{
    if s.len() > 0 && s.last() == 0x0du8 {
        spec_strip_trailing_cr(s.drop_last())
    } else {
        s
    }
}

impl FormattingData {
    pub open spec fn spec_is_ignored(&self) -> bool {
        self.ignored
    }

    pub fn is_ignored(&self) -> (r: bool)
        ensures
            r == self.spec_is_ignored(),
    {
        self.ignored
    }

    /// Classifies an original leading-whitespace run: `newlines_before` is its
    /// count of line feeds, `spaces_before` the byte length of its final line
    /// (trailing carriage returns dropped); indentation and continuation
    /// counts start at zero.
    pub fn from_whitespace(ws: &[u8], ignored: bool) -> (r: Self)
        ensures
            r.spec_is_ignored() == ignored,
            r.newlines_before == spec_count_byte(ws@, 0x0au8),
            r.indentations_before == 0,
            r.continuations_before == 0,
            r.spaces_before == spec_strip_trailing_cr(ws@.skip(spec_last_line_start(ws@))).len(),
    {
        let mut newlines: usize = 0;
        let mut line_start: usize = 0;
        let mut i: usize = 0;
        while i < ws.len()
            invariant
                0 <= i <= ws.len(),
                newlines == spec_count_byte(ws@.take(i as int), 0x0au8),
                line_start == spec_last_line_start(ws@.take(i as int)),
                newlines <= i,
                line_start <= i,
            decreases ws.len() - i,
        {
            proof {
                assert(ws@.take(i + 1 as int).drop_last() =~= ws@.take(i as int));
            }
            if ws[i] == 0x0a {
                newlines = newlines + 1;
                line_start = i + 1;
            }
            i = i + 1;
        }
        proof {
            assert(ws@.take(ws@.len() as int) =~= ws@);
        }
        let mut line_end: usize = ws.len();
        while line_end > line_start && ws[line_end - 1] == 0x0d
            invariant
                line_start <= line_end <= ws.len(),
                line_start == spec_last_line_start(ws@),
                spec_strip_trailing_cr(ws@.skip(line_start as int))
                    == spec_strip_trailing_cr(ws@.take(line_end as int).skip(line_start as int)),
            decreases line_end,
        {
            proof {
                assert(ws@.take(line_end as int).skip(line_start as int).drop_last()
                    =~= ws@.take(line_end - 1 as int).skip(line_start as int));
            }
            line_end = line_end - 1;
        }
        proof {
            lemma_last_line_has_no_lf(ws@);
            assert(ws@.take(ws@.len() as int) =~= ws@);
            let t = ws@.take(line_end as int).skip(line_start as int);
            if line_end > line_start {
                assert(t.last() == ws@[line_end - 1]);
            }
            assert(spec_strip_trailing_cr(t) =~= t);
        }
        FormattingData {
            ignored,
            newlines_before: newlines,
            indentations_before: 0,
            continuations_before: 0,
            spaces_before: line_end - line_start,
        }
    }
}

proof fn lemma_last_line_has_no_lf(s: Seq<u8>)
    ensures
        0 <= spec_last_line_start(s) <= s.len(),
    decreases s.len(),
{
    if s.len() > 0 && s.last() != 0x0au8 {
        lemma_last_line_has_no_lf(s.drop_last());
    }
}


/// A token borrowing its bytes from the input text. `content` includes the
/// token's leading whitespace; `ws_len` says how many of its leading bytes
/// are that whitespace.
#[derive(Debug, PartialEq, Eq)]
pub struct RefToken<'a> {
    content: &'a [u8],
    ws_len: u32,
    token_type: TokenType,
}

impl<'a> RefToken<'a> {
    pub fn new(content: &'a [u8], ws_len: u32, token_type: TokenType) -> (r: RefToken<'a>)
        requires
            ws_len as int <= content@.len(),
        ensures
            r.spec_full() == content@,
            r.spec_ws_len() == ws_len as int,
            r.spec_type() == token_type,
    {
        RefToken { content, ws_len, token_type }
    }

    pub closed spec fn spec_full(&self) -> Seq<u8> {
        self.content@
    }

    pub closed spec fn spec_ws_len(&self) -> int {
        self.ws_len as int
    }

    pub closed spec fn spec_type(&self) -> TokenType {
        self.token_type
    }
}

/// A token owning its bytes: the form a token takes once a formatter has
/// rewritten its content.
#[derive(Debug, PartialEq, Eq)]
pub struct OwningToken {
    content: Vec<u8>,
    ws_len: u32,
    token_type: TokenType,
}

impl OwningToken {
    pub fn new(content: Vec<u8>, ws_len: u32, token_type: TokenType) -> (r: OwningToken)
        requires
            ws_len as int <= content@.len(),
        ensures
            r.spec_full() == content@,
            r.spec_ws_len() == ws_len as int,
            r.spec_type() == token_type,
    {
        OwningToken { content, ws_len, token_type }
    }

    pub closed spec fn spec_full(&self) -> Seq<u8> {
        self.content@
    }

    pub closed spec fn spec_ws_len(&self) -> int {
        self.ws_len as int
    }

    pub closed spec fn spec_type(&self) -> TokenType {
        self.token_type
    }
}

#[derive(Debug, PartialEq, Eq)]
pub enum Token<'a> {
    RefToken(RefToken<'a>),
    OwningToken(OwningToken),
}

impl<'a> Token<'a> {
    /// All the token's bytes: leading whitespace followed by its content.
    pub open spec fn spec_full(&self) -> Seq<u8> {
        match self {
            Token::RefToken(t) => t.spec_full(),
            Token::OwningToken(t) => t.spec_full(),
        }
    }

    pub open spec fn spec_ws_len(&self) -> int {
        match self {
            Token::RefToken(t) => t.spec_ws_len(),
            Token::OwningToken(t) => t.spec_ws_len(),
        }
    }

    pub open spec fn spec_type(&self) -> TokenType {
        match self {
            Token::RefToken(t) => t.spec_type(),
            Token::OwningToken(t) => t.spec_type(),
        }
    }

    /// The whitespace count never exceeds the stored bytes.
    pub open spec fn wf(&self) -> bool {
        0 <= self.spec_ws_len() <= self.spec_full().len()
    }

    pub open spec fn spec_ws(&self) -> Seq<u8> {
        self.spec_full().take(self.spec_ws_len())
    }

    pub open spec fn spec_content(&self) -> Seq<u8> {
        self.spec_full().skip(self.spec_ws_len())
    }

    pub fn new_ref(content: &'a [u8], ws_len: u32, token_type: TokenType) -> (r: Token<'a>)
        requires
            ws_len as int <= content@.len(),
        ensures
            r.wf(),
            r.spec_full() == content@,
            r.spec_ws_len() == ws_len as int,
            r.spec_type() == token_type,
    {
        Token::RefToken(RefToken::new(content, ws_len, token_type))
    }

    pub fn get_leading_whitespace(&self) -> (r: &[u8])
        requires
            self.wf(),
        ensures
            r@ == self.spec_ws(),
    {
        match self {
            Token::RefToken(t) => {
                let r = vstd::slice::slice_subrange(t.content, 0, t.ws_len as usize);
                proof {
                    assert(r@ =~= self.spec_ws());
                }
                r
            },
            Token::OwningToken(t) => {
                let r = vstd::slice::slice_subrange(t.content.as_slice(), 0, t.ws_len as usize);
                proof {
                    assert(r@ =~= self.spec_ws());
                }
                r
            },
        }
    }

    pub fn get_content(&self) -> (r: &[u8])
        requires
            self.wf(),
        ensures
            r@ == self.spec_content(),
    {
        match self {
            Token::RefToken(t) => {
                let r = vstd::slice::slice_subrange(t.content, t.ws_len as usize, t.content.len());
                proof {
                    assert(r@ =~= self.spec_content());
                }
                r
            },
            Token::OwningToken(t) => {
                let len = t.content.len();
                let r = vstd::slice::slice_subrange(t.content.as_slice(), t.ws_len as usize, len);
                proof {
                    assert(r@ =~= self.spec_content());
                }
                r
            },
        }
    }

    pub fn get_token_type(&self) -> (r: TokenType)
        ensures
            r == self.spec_type(),
    {
        match self {
            Token::RefToken(t) => t.token_type,
            Token::OwningToken(t) => t.token_type,
        }
    }

    pub fn set_token_type(&mut self, typ: TokenType)
        ensures
            final(self).spec_type() == typ,
            final(self).spec_full() == old(self).spec_full(),
            final(self).spec_ws_len() == old(self).spec_ws_len(),
            final(self).wf() == old(self).wf(),
    {
        match self {
            Token::RefToken(t) => t.token_type = typ,
            Token::OwningToken(t) => t.token_type = typ,
        }
    }

    /// Replaces the token's content, keeping its leading whitespace and type;
    /// the token then owns its bytes.
    pub fn set_content(&mut self, new_content: Vec<u8>)
        requires
            old(self).wf(),
        ensures
            final(self).wf(),
            final(self).spec_ws() == old(self).spec_ws(),
            final(self).spec_ws_len() == old(self).spec_ws_len(),
            final(self).spec_content() == new_content@,
            final(self).spec_type() == old(self).spec_type(),
    {
        let ws = self.get_leading_whitespace();
        let mut full = vstd::slice::slice_to_vec(ws);
        let mut tail = new_content;
        full.append(&mut tail);
        let ws_len: u32 = match self {
            Token::RefToken(t) => t.ws_len,
            Token::OwningToken(t) => t.ws_len,
        };
        let typ = self.get_token_type();
        proof {
            assert(full@.take(ws_len as int) =~= old(self).spec_ws());
            assert(full@.skip(ws_len as int) =~= new_content@);
        }
        *self = Token::OwningToken(OwningToken::new(full, ws_len, typ));
    }
}

/// A set of token indices, used to mark the tokens a formatting toggle froze.
pub struct TokenMarker {
    marked: Vec<bool>,
}

impl TokenMarker {
    /// Whether index `i` is marked; an index past the end is unmarked.
    pub closed spec fn spec_is_marked(&self, i: int) -> bool {
        0 <= i < self.marked@.len() && self.marked@[i]
    }

    pub closed spec fn spec_len(&self) -> int {
        self.marked@.len() as int
    }

    pub fn new_unmarked(len: usize) -> (r: Self)
        ensures
            forall|i: int| !r.spec_is_marked(i),
            r.spec_len() == len as int,
    {
        let mut marked: Vec<bool> = Vec::new();
        let mut k: usize = 0;
        while k < len
            invariant
                k <= len,
                marked@.len() == k,
                forall|i: int| 0 <= i < k ==> !marked@[i],
            decreases len - k,
        {
            marked.push(false);
            k = k + 1;
        }
        TokenMarker { marked }
    }

    pub fn mark(&mut self, i: usize)
        requires
            (i as int) < old(self).spec_len(),
        ensures
            final(self).spec_is_marked(i as int),
            forall|j: int| j != i ==> final(self).spec_is_marked(j) == old(self).spec_is_marked(j),
            final(self).spec_len() == old(self).spec_len(),
    {
        self.marked[i] = true;
    }

    pub fn is_marked(&self, i: usize) -> (r: bool)
        ensures
            r == self.spec_is_marked(i as int),
    {
        i < self.marked.len() && self.marked[i]
    }

    pub fn len(&self) -> (r: usize)
        ensures
            r as int == self.spec_len(),
    {
        self.marked.len()
    }
}

/// The tokens of one file, each paired with its formatting data.
pub struct FormattedTokens<'a> {
    tokens: Vec<(Token<'a>, FormattingData)>,
}

impl<'a> FormattedTokens<'a> {
    pub closed spec fn spec_tokens(&self) -> Seq<(Token<'a>, FormattingData)> {
        self.tokens@
    }

    /// Every held token is well formed.
    pub open spec fn wf(&self) -> bool {
        forall|i: int| 0 <= i < self.spec_tokens().len() ==> (#[trigger] self.spec_tokens()[i]).0.wf()
    }

    /// Pairs each token with formatting data read off its original leading
    /// whitespace, frozen where `ignored_tokens` marks its index.
    pub fn new_from_tokens(tokens: Vec<Token<'a>>, ignored_tokens: &TokenMarker) -> (r: Self)
        requires
            forall|i: int| 0 <= i < tokens@.len() ==> (#[trigger] tokens@[i]).wf(),
        ensures
            r.wf(),
            r.spec_tokens().len() == tokens@.len(),
            forall|i: int| 0 <= i < tokens@.len() ==> (#[trigger] r.spec_tokens()[i]).0 == tokens@[i],
            forall|i: int| 0 <= i < tokens@.len()
                ==> (#[trigger] r.spec_tokens()[i]).1.spec_is_ignored()
                    == ignored_tokens.spec_is_marked(i),
            forall|i: int| 0 <= i < tokens@.len()
                ==> (#[trigger] r.spec_tokens()[i]).1.newlines_before
                    == spec_count_byte(tokens@[i].spec_ws(), 0x0au8),
            forall|i: int| 0 <= i < tokens@.len()
                ==> (#[trigger] r.spec_tokens()[i]).1.indentations_before == 0
                    && r.spec_tokens()[i].1.continuations_before == 0,
            forall|i: int| 0 <= i < tokens@.len()
                ==> (#[trigger] r.spec_tokens()[i]).1.spaces_before == spec_strip_trailing_cr(
                    tokens@[i].spec_ws().skip(spec_last_line_start(tokens@[i].spec_ws())),
                ).len(),
    {
        let ghost orig = tokens@;
        let mut out: Vec<(Token<'a>, FormattingData)> = Vec::new();
        let mut rest = tokens;
        while rest.len() > 0
            invariant
                rest@.len() + out@.len() == orig.len(),
                rest@ =~= orig.skip(out@.len() as int),
                forall|i: int| 0 <= i < out@.len() ==> (#[trigger] out@[i]).0 == orig[i],
                forall|i: int| 0 <= i < orig.len() ==> (#[trigger] orig[i]).wf(),
                forall|i: int| 0 <= i < out@.len()
                    ==> (#[trigger] out@[i]).1.spec_is_ignored() == ignored_tokens.spec_is_marked(i),
                forall|i: int| 0 <= i < out@.len()
                    ==> (#[trigger] out@[i]).1.newlines_before
                        == spec_count_byte(orig[i].spec_ws(), 0x0au8),
                forall|i: int| 0 <= i < out@.len()
                    ==> (#[trigger] out@[i]).1.indentations_before == 0
                        && out@[i].1.continuations_before == 0,
                forall|i: int| 0 <= i < out@.len()
                    ==> (#[trigger] out@[i]).1.spaces_before == spec_strip_trailing_cr(
                        orig[i].spec_ws().skip(spec_last_line_start(orig[i].spec_ws())),
                    ).len(),
            decreases rest@.len(),
        {
            let tok = rest.remove(0);
            let idx = out.len();
            let data = FormattingData::from_whitespace(
                tok.get_leading_whitespace(),
                ignored_tokens.is_marked(idx),
            );
            out.push((tok, data));
        }
        FormattedTokens { tokens: out }
    }

    pub fn new(tokens: Vec<(Token<'a>, FormattingData)>) -> (r: Self)
        ensures
            r.spec_tokens() == tokens@,
    {
        FormattedTokens { tokens }
    }

    pub fn get_tokens(&self) -> (r: &Vec<(Token<'a>, FormattingData)>)
        ensures
            r@ == self.spec_tokens(),
    {
        &self.tokens
    }

    pub fn len(&self) -> (r: usize)
        ensures
            r == self.spec_tokens().len(),
    {
        self.tokens.len()
    }

    pub fn get_token(&self, index: usize) -> (r: Option<&(Token<'a>, FormattingData)>)
        ensures
            index < self.spec_tokens().len()
                ==> r is Some && *r.unwrap() == self.spec_tokens()[index as int],
            index >= self.spec_tokens().len() ==> r is None,
    {
        if index < self.tokens.len() {
            Some(&self.tokens[index])
        } else {
            None
        }
    }

    pub fn get_token_mut(&mut self, index: usize) -> (r: Option<&mut (Token<'a>, FormattingData)>)
        ensures
            index < old(self).spec_tokens().len() ==> r is Some
                && *r.unwrap() == old(self).spec_tokens()[index as int]
                && final(self).spec_tokens()
                    == old(self).spec_tokens().update(index as int, *final(r.unwrap())),
            index >= old(self).spec_tokens().len()
                ==> r is None && final(self).spec_tokens() == old(self).spec_tokens(),
    {
        if index < self.tokens.len() {
            Some(&mut self.tokens[index])
        } else {
            None
        }
    }

    pub fn get_formatting_data(&self, index: usize) -> (r: Option<&FormattingData>)
        ensures
            index < self.spec_tokens().len()
                ==> r is Some && *r.unwrap() == self.spec_tokens()[index as int].1,
            index >= self.spec_tokens().len() ==> r is None,
    {
        if index < self.tokens.len() {
            Some(&self.tokens[index].1)
        } else {
            None
        }
    }

    pub fn get_formatting_data_mut(&mut self, index: usize) -> (r: Option<&mut FormattingData>)
        ensures
            index < old(self).spec_tokens().len() ==> r is Some
                && *r.unwrap() == old(self).spec_tokens()[index as int].1
                && final(self).spec_tokens() == old(self).spec_tokens().update(
                    index as int,
                    (old(self).spec_tokens()[index as int].0, *final(r.unwrap())),
                ),
            index >= old(self).spec_tokens().len()
                ==> r is None && final(self).spec_tokens() == old(self).spec_tokens(),
    {
        if index < self.tokens.len() {
            Some(&mut self.tokens[index].1)
        } else {
            None
        }
    }

    pub fn get_token_type_for_index(&self, index: usize) -> (r: Option<TokenType>)
        ensures
            index < self.spec_tokens().len()
                ==> r == Some(self.spec_tokens()[index as int].0.spec_type()),
            index >= self.spec_tokens().len() ==> r is None,
    {
        if index < self.tokens.len() {
            Some(self.tokens[index].0.get_token_type())
        } else {
            None
        }
    }
}

/// The tokens of one file together with the logical lines that partition them.
pub struct LogicalLines<'a> {
    tokens: Vec<Token<'a>>,
    lines: Vec<LogicalLine>,
}

impl<'a> LogicalLines<'a> {
    pub closed spec fn spec_tokens(&self) -> Seq<Token<'a>> {
        self.tokens@
    }

    pub closed spec fn spec_lines(&self) -> Seq<LogicalLine> {
        self.lines@
    }

    pub fn new(tokens: Vec<Token<'a>>, lines: Vec<LogicalLine>) -> (r: Self)
        ensures
            r.spec_tokens() == tokens@,
            r.spec_lines() == lines@,
    {
        LogicalLines { tokens, lines }
    }

    pub fn get_tokens(&self) -> (r: &Vec<Token<'a>>)
        ensures
            r@ == self.spec_tokens(),
    {
        &self.tokens
    }

    pub fn get_tokens_mut(&mut self) -> (r: &mut Vec<Token<'a>>)
        ensures
            r@ == old(self).spec_tokens(),
            final(self).spec_tokens() == final(r)@,
            final(self).spec_lines() == old(self).spec_lines(),
    {
        &mut self.tokens
    }

    pub fn get_lines(&self) -> (r: &Vec<LogicalLine>)
        ensures
            r@ == self.spec_lines(),
    {
        &self.lines
    }

    pub fn get_lines_mut(&mut self) -> (r: &mut Vec<LogicalLine>)
        ensures
            r@ == old(self).spec_lines(),
            final(self).spec_lines() == final(r)@,
            final(self).spec_tokens() == old(self).spec_tokens(),
    {
        &mut self.lines
    }
}

/// The three strings reconstruction composes whitespace from: one newline,
/// one indentation unit, one continuation unit.
pub struct ReconstructionSettings {
    newline_str: Vec<u8>,
    indentation_str: Vec<u8>,
    continuation_str: Vec<u8>,
}

impl ReconstructionSettings {
    pub closed spec fn spec_newline(&self) -> Seq<u8> {
        self.newline_str@
    }

    pub closed spec fn spec_indentation(&self) -> Seq<u8> {
        self.indentation_str@
    }

    pub closed spec fn spec_continuation(&self) -> Seq<u8> {
        self.continuation_str@
    }

    pub fn new(newline_str: Vec<u8>, indentation_str: Vec<u8>, continuation_str: Vec<u8>) -> (r:
        Self)
        ensures
            r.spec_newline() == newline_str@,
            r.spec_indentation() == indentation_str@,
            r.spec_continuation() == continuation_str@,
    {
        ReconstructionSettings { newline_str, indentation_str, continuation_str }
    }

    pub fn get_newline_str(&self) -> (r: &Vec<u8>)
        ensures
            r@ == self.spec_newline(),
    {
        &self.newline_str
    }

    pub fn get_indentation_str(&self) -> (r: &Vec<u8>)
        ensures
            r@ == self.spec_indentation(),
    {
        &self.indentation_str
    }

    pub fn get_continuation_str(&self) -> (r: &Vec<u8>)
        ensures
            r@ == self.spec_continuation(),
    {
        &self.continuation_str
    }
}


/// The logical-line partition invariant: every non-voided line holds at least
/// one token index, its indices are strictly increasing, a voided line holds
/// none, and no token index belongs to two lines.
pub open spec fn spec_lines_partition(lines: Seq<LogicalLine>) -> bool {
    (forall|i: int|
        0 <= i < lines.len() ==> ((#[trigger] lines[i]).spec_line_type() == LogicalLineType::Voided
            ==> lines[i].spec_tokens().len() == 0)) && (forall|i: int|
        0 <= i < lines.len() ==> ((#[trigger] lines[i]).spec_line_type() != LogicalLineType::Voided
            ==> lines[i].spec_tokens().len() > 0)) && (forall|i: int, a: int, b: int|
        0 <= i < lines.len() && 0 <= a < b < lines[i].spec_tokens().len()
            ==> #[trigger] lines[i].spec_tokens()[a] < #[trigger] lines[i].spec_tokens()[b]) && (forall|
        i: int,
        j: int,
        a: int,
        b: int,
    |
        0 <= i < lines.len() && 0 <= j < lines.len() && i != j && 0 <= a
            < lines[i].spec_tokens().len() && 0 <= b < lines[j].spec_tokens().len()
            ==> #[trigger] lines[i].spec_tokens()[a] != #[trigger] lines[j].spec_tokens()[b])
}

/// Voiding is the only post-parse erasure, and it keeps the partition sound:
/// after a line is voided the remaining lines still hold disjoint, increasing,
/// non-empty token lists, and the voided line holds none.
pub proof fn lemma_voiding_preserves_partition(
    lines: Seq<LogicalLine>,
    k: int,
    voided: LogicalLine,
)
    requires
        spec_lines_partition(lines),
        0 <= k < lines.len(),
        voided.spec_tokens() == Seq::<usize>::empty(),
        voided.spec_line_type() == LogicalLineType::Voided,
    ensures
        spec_lines_partition(lines.update(k, voided)),
{
    let updated = lines.update(k, voided);
    assert forall|i: int, j: int, a: int, b: int|
        0 <= i < updated.len() && 0 <= j < updated.len() && i != j && 0 <= a
            < updated[i].spec_tokens().len() && 0 <= b < updated[j].spec_tokens().len()
            implies #[trigger] updated[i].spec_tokens()[a] != #[trigger] updated[j].spec_tokens()[b] by {
        if i != k && j != k {
            assert(updated[i] == lines[i]);
            assert(updated[j] == lines[j]);
        }
    }
}

} // verus!
