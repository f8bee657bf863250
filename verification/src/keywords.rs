use vstd::prelude::*;
use crate::lang::{DeclKind, InKind, KeywordKind, TokenType};

verus! {

/// `b` with an ASCII upper-case letter folded to lower case.
pub open spec fn spec_lower_byte(b: u8) -> u8 {
    if 65 <= b && b <= 90 {
        (b + 32) as u8
    } else {
        b
    }
}

/// `s` folded to ASCII lower case, byte for byte.
pub open spec fn spec_lower_bytes(s: Seq<u8>) -> Seq<u8> {
    s.map_values(|b: u8| spec_lower_byte(b))
}

pub fn lower_byte(b: u8) -> (r: u8)
    ensures
        r == spec_lower_byte(b),
{
    if 65 <= b && b <= 90 {
        b + 32
    } else {
        b
    }
}

pub fn lower_bytes(w: &[u8]) -> (r: Vec<u8>)
    ensures
        r@ == spec_lower_bytes(w@),
{
    let mut out: Vec<u8> = Vec::new();
    let mut i: usize = 0;
    while i < w.len()
        invariant
            i <= w@.len(),
            out@.len() == i,
            forall|j: int| 0 <= j < i ==> out@[j] == spec_lower_byte(w@[j]),
        decreases w@.len() - i,
    {
        out.push(lower_byte(w[i]));
        i = i + 1;
    }
    proof {
        assert(out@ =~= spec_lower_bytes(w@));
    }
    out
}

pub(crate) fn kw2(w: &[u8], b0: u8, b1: u8) -> (r: bool)
    ensures
        r == (w@ =~= seq![b0, b1]),
{
    w.len() == 2 && w[0] == b0 && w[1] == b1
}

pub(crate) fn kw3(w: &[u8], b0: u8, b1: u8, b2: u8) -> (r: bool)
    ensures
        r == (w@ =~= seq![b0, b1, b2]),
{
    w.len() == 3 && w[0] == b0 && w[1] == b1 && w[2] == b2
}

pub(crate) fn kw4(w: &[u8], b0: u8, b1: u8, b2: u8, b3: u8) -> (r: bool)
    ensures
        r == (w@ =~= seq![b0, b1, b2, b3]),
{
    w.len() == 4 && w[0] == b0 && w[1] == b1 && w[2] == b2 && w[3] == b3
}

pub(crate) fn kw5(w: &[u8], b0: u8, b1: u8, b2: u8, b3: u8, b4: u8) -> (r: bool)
    ensures
        r == (w@ =~= seq![b0, b1, b2, b3, b4]),
{
    w.len() == 5 && w[0] == b0 && w[1] == b1 && w[2] == b2 && w[3] == b3 && w[4] == b4
}

pub(crate) fn kw6(w: &[u8], b0: u8, b1: u8, b2: u8, b3: u8, b4: u8, b5: u8) -> (r: bool)
    ensures
        r == (w@ =~= seq![b0, b1, b2, b3, b4, b5]),
{
    w.len() == 6 && w[0] == b0 && w[1] == b1 && w[2] == b2 && w[3] == b3 && w[4] == b4 && w[5] == b5
}

pub(crate) fn kw7(w: &[u8], b0: u8, b1: u8, b2: u8, b3: u8, b4: u8, b5: u8, b6: u8) -> (r: bool)
    ensures
        r == (w@ =~= seq![b0, b1, b2, b3, b4, b5, b6]),
{
    w.len() == 7 && w[0] == b0 && w[1] == b1 && w[2] == b2 && w[3] == b3 && w[4] == b4 && w[5] == b5 && w[6] == b6
}

pub(crate) fn kw8(w: &[u8], b0: u8, b1: u8, b2: u8, b3: u8, b4: u8, b5: u8, b6: u8, b7: u8) -> (r: bool)
    ensures
        r == (w@ =~= seq![b0, b1, b2, b3, b4, b5, b6, b7]),
{
    w.len() == 8 && w[0] == b0 && w[1] == b1 && w[2] == b2 && w[3] == b3 && w[4] == b4 && w[5] == b5 && w[6] == b6 && w[7] == b7
}

pub(crate) fn kw9(w: &[u8], b0: u8, b1: u8, b2: u8, b3: u8, b4: u8, b5: u8, b6: u8, b7: u8, b8: u8) -> (r: bool)
    ensures
        r == (w@ =~= seq![b0, b1, b2, b3, b4, b5, b6, b7, b8]),
{
    w.len() == 9 && w[0] == b0 && w[1] == b1 && w[2] == b2 && w[3] == b3 && w[4] == b4 && w[5] == b5 && w[6] == b6 && w[7] == b7 && w[8] == b8
}

pub(crate) fn kw10(w: &[u8], b0: u8, b1: u8, b2: u8, b3: u8, b4: u8, b5: u8, b6: u8, b7: u8, b8: u8, b9: u8) -> (r: bool)
    ensures
        r == (w@ =~= seq![b0, b1, b2, b3, b4, b5, b6, b7, b8, b9]),
{
    w.len() == 10 && w[0] == b0 && w[1] == b1 && w[2] == b2 && w[3] == b3 && w[4] == b4 && w[5] == b5 && w[6] == b6 && w[7] == b7 && w[8] == b8 && w[9] == b9
}

pub(crate) fn kw11(w: &[u8], b0: u8, b1: u8, b2: u8, b3: u8, b4: u8, b5: u8, b6: u8, b7: u8, b8: u8, b9: u8, b10: u8) -> (r: bool)
    ensures
        r == (w@ =~= seq![b0, b1, b2, b3, b4, b5, b6, b7, b8, b9, b10]),
{
    w.len() == 11 && w[0] == b0 && w[1] == b1 && w[2] == b2 && w[3] == b3 && w[4] == b4 && w[5] == b5 && w[6] == b6 && w[7] == b7 && w[8] == b8 && w[9] == b9 && w[10] == b10
}

pub(crate) fn kw12(w: &[u8], b0: u8, b1: u8, b2: u8, b3: u8, b4: u8, b5: u8, b6: u8, b7: u8, b8: u8, b9: u8, b10: u8, b11: u8) -> (r: bool)
    ensures
        r == (w@ =~= seq![b0, b1, b2, b3, b4, b5, b6, b7, b8, b9, b10, b11]),
{
    w.len() == 12 && w[0] == b0 && w[1] == b1 && w[2] == b2 && w[3] == b3 && w[4] == b4 && w[5] == b5 && w[6] == b6 && w[7] == b7 && w[8] == b8 && w[9] == b9 && w[10] == b10 && w[11] == b11
}

pub(crate) fn kw13(w: &[u8], b0: u8, b1: u8, b2: u8, b3: u8, b4: u8, b5: u8, b6: u8, b7: u8, b8: u8, b9: u8, b10: u8, b11: u8, b12: u8) -> (r: bool)
    ensures
        r == (w@ =~= seq![b0, b1, b2, b3, b4, b5, b6, b7, b8, b9, b10, b11, b12]),
{
    w.len() == 13 && w[0] == b0 && w[1] == b1 && w[2] == b2 && w[3] == b3 && w[4] == b4 && w[5] == b5 && w[6] == b6 && w[7] == b7 && w[8] == b8 && w[9] == b9 && w[10] == b10 && w[11] == b11 && w[12] == b12
}

pub(crate) fn kw14(w: &[u8], b0: u8, b1: u8, b2: u8, b3: u8, b4: u8, b5: u8, b6: u8, b7: u8, b8: u8, b9: u8, b10: u8, b11: u8, b12: u8, b13: u8) -> (r: bool)
    ensures
        r == (w@ =~= seq![b0, b1, b2, b3, b4, b5, b6, b7, b8, b9, b10, b11, b12, b13]),
{
    w.len() == 14 && w[0] == b0 && w[1] == b1 && w[2] == b2 && w[3] == b3 && w[4] == b4 && w[5] == b5 && w[6] == b6 && w[7] == b7 && w[8] == b8 && w[9] == b9 && w[10] == b10 && w[11] == b11 && w[12] == b12 && w[13] == b13
}

/// The token type of an identifier-shaped word: the matching keyword of the
/// closed keyword set, compared case-insensitively, or `Identifier`.
pub open spec fn spec_word_token_type(w: Seq<u8>) -> TokenType {
    let l = spec_lower_bytes(w);
    if l =~= seq![97u8, 98u8, 115u8, 111u8, 108u8, 117u8, 116u8, 101u8] {
        TokenType::IdentifierOrKeyword(KeywordKind::Absolute)
    } else if l =~= seq![97u8, 98u8, 115u8, 116u8, 114u8, 97u8, 99u8, 116u8] {
        TokenType::IdentifierOrKeyword(KeywordKind::Abstract)
    } else if l =~= seq![97u8, 100u8, 100u8] {
        TokenType::IdentifierOrKeyword(KeywordKind::Add)
    } else if l =~= seq![97u8, 108u8, 105u8, 103u8, 110u8] {
        TokenType::IdentifierOrKeyword(KeywordKind::Align)
    } else if l =~= seq![97u8, 110u8, 100u8] {
        TokenType::Keyword(KeywordKind::And)
    } else if l =~= seq![97u8, 114u8, 114u8, 97u8, 121u8] {
        TokenType::Keyword(KeywordKind::Array)
    } else if l =~= seq![97u8, 115u8] {
        TokenType::Keyword(KeywordKind::As)
    } else if l =~= seq![97u8, 115u8, 109u8] {
        TokenType::Keyword(KeywordKind::Asm)
    } else if l =~= seq![97u8, 115u8, 115u8, 101u8, 109u8, 98u8, 108u8, 101u8, 114u8] {
        TokenType::IdentifierOrKeyword(KeywordKind::Assembler)
    } else if l =~= seq![97u8, 116u8] {
        TokenType::IdentifierOrKeyword(KeywordKind::At)
    } else if l =~= seq![97u8, 117u8, 116u8, 111u8, 109u8, 97u8, 116u8, 101u8, 100u8] {
        TokenType::IdentifierOrKeyword(KeywordKind::Automated)
    } else if l =~= seq![98u8, 101u8, 103u8, 105u8, 110u8] {
        TokenType::Keyword(KeywordKind::Begin)
    } else if l =~= seq![99u8, 97u8, 115u8, 101u8] {
        TokenType::Keyword(KeywordKind::Case)
    } else if l =~= seq![99u8, 100u8, 101u8, 99u8, 108u8] {
        TokenType::IdentifierOrKeyword(KeywordKind::Cdecl)
    } else if l =~= seq![99u8, 108u8, 97u8, 115u8, 115u8] {
        TokenType::Keyword(KeywordKind::Class)
    } else if l =~= seq![99u8, 111u8, 110u8, 115u8, 116u8] {
        TokenType::Keyword(KeywordKind::Const(DeclKind::Section))
    } else if l =~= seq![99u8, 111u8, 110u8, 115u8, 116u8, 114u8, 117u8, 99u8, 116u8, 111u8, 114u8] {
        TokenType::Keyword(KeywordKind::Constructor)
    } else if l =~= seq![99u8, 111u8, 110u8, 116u8, 97u8, 105u8, 110u8, 115u8] {
        TokenType::IdentifierOrKeyword(KeywordKind::Contains)
    } else if l =~= seq![100u8, 101u8, 102u8, 97u8, 117u8, 108u8, 116u8] {
        TokenType::IdentifierOrKeyword(KeywordKind::Default)
    } else if l =~= seq![100u8, 101u8, 108u8, 97u8, 121u8, 101u8, 100u8] {
        TokenType::IdentifierOrKeyword(KeywordKind::Delayed)
    } else if l =~= seq![100u8, 101u8, 112u8, 114u8, 101u8, 99u8, 97u8, 116u8, 101u8, 100u8] {
        TokenType::IdentifierOrKeyword(KeywordKind::Deprecated)
    } else if l =~= seq![100u8, 101u8, 115u8, 116u8, 114u8, 117u8, 99u8, 116u8, 111u8, 114u8] {
        TokenType::Keyword(KeywordKind::Destructor)
    } else if l =~= seq![100u8, 105u8, 115u8, 112u8, 105u8, 100u8] {
        TokenType::IdentifierOrKeyword(KeywordKind::DispId)
    } else if l =~= seq![100u8, 105u8, 115u8, 112u8, 105u8, 110u8, 116u8, 101u8, 114u8, 102u8, 97u8, 99u8, 101u8] {
        TokenType::Keyword(KeywordKind::DispInterface)
    } else if l =~= seq![100u8, 105u8, 118u8] {
        TokenType::Keyword(KeywordKind::Div)
    } else if l =~= seq![100u8, 111u8] {
        TokenType::Keyword(KeywordKind::Do)
    } else if l =~= seq![100u8, 111u8, 119u8, 110u8, 116u8, 111u8] {
        TokenType::Keyword(KeywordKind::Downto)
    } else if l =~= seq![100u8, 121u8, 110u8, 97u8, 109u8, 105u8, 99u8] {
        TokenType::IdentifierOrKeyword(KeywordKind::Dynamic)
    } else if l =~= seq![101u8, 108u8, 115u8, 101u8] {
        TokenType::Keyword(KeywordKind::Else)
    } else if l =~= seq![101u8, 110u8, 100u8] {
        TokenType::Keyword(KeywordKind::End)
    } else if l =~= seq![101u8, 120u8, 99u8, 101u8, 112u8, 116u8] {
        TokenType::Keyword(KeywordKind::Except)
    } else if l =~= seq![101u8, 120u8, 112u8, 101u8, 114u8, 105u8, 109u8, 101u8, 110u8, 116u8, 97u8, 108u8] {
        TokenType::IdentifierOrKeyword(KeywordKind::Experimental)
    } else if l =~= seq![101u8, 120u8, 112u8, 111u8, 114u8, 116u8] {
        TokenType::IdentifierOrKeyword(KeywordKind::Export)
    } else if l =~= seq![101u8, 120u8, 112u8, 111u8, 114u8, 116u8, 115u8] {
        TokenType::Keyword(KeywordKind::Exports)
    } else if l =~= seq![101u8, 120u8, 116u8, 101u8, 114u8, 110u8, 97u8, 108u8] {
        TokenType::IdentifierOrKeyword(KeywordKind::External)
    } else if l =~= seq![102u8, 97u8, 114u8] {
        TokenType::IdentifierOrKeyword(KeywordKind::Far)
    } else if l =~= seq![102u8, 105u8, 108u8, 101u8] {
        TokenType::Keyword(KeywordKind::File)
    } else if l =~= seq![102u8, 105u8, 110u8, 97u8, 108u8] {
        TokenType::IdentifierOrKeyword(KeywordKind::Final)
    } else if l =~= seq![102u8, 105u8, 110u8, 97u8, 108u8, 105u8, 122u8, 97u8, 116u8, 105u8, 111u8, 110u8] {
        TokenType::Keyword(KeywordKind::Finalization)
    } else if l =~= seq![102u8, 105u8, 110u8, 97u8, 108u8, 108u8, 121u8] {
        TokenType::Keyword(KeywordKind::Finally)
    } else if l =~= seq![102u8, 111u8, 114u8] {
        TokenType::Keyword(KeywordKind::For)
    } else if l =~= seq![102u8, 111u8, 114u8, 119u8, 97u8, 114u8, 100u8] {
        TokenType::IdentifierOrKeyword(KeywordKind::Forward)
    } else if l =~= seq![102u8, 117u8, 110u8, 99u8, 116u8, 105u8, 111u8, 110u8] {
        TokenType::Keyword(KeywordKind::Function)
    } else if l =~= seq![103u8, 111u8, 116u8, 111u8] {
        TokenType::Keyword(KeywordKind::Goto)
    } else if l =~= seq![104u8, 101u8, 108u8, 112u8, 101u8, 114u8] {
        TokenType::IdentifierOrKeyword(KeywordKind::Helper)
    } else if l =~= seq![105u8, 102u8] {
        TokenType::Keyword(KeywordKind::If)
    } else if l =~= seq![105u8, 109u8, 112u8, 108u8, 101u8, 109u8, 101u8, 110u8, 116u8, 97u8, 116u8, 105u8, 111u8, 110u8] {
        TokenType::Keyword(KeywordKind::Implementation)
    } else if l =~= seq![105u8, 109u8, 112u8, 108u8, 101u8, 109u8, 101u8, 110u8, 116u8, 115u8] {
        TokenType::IdentifierOrKeyword(KeywordKind::Implements)
    } else if l =~= seq![105u8, 110u8] {
        TokenType::Keyword(KeywordKind::In(InKind::Op))
    } else if l =~= seq![105u8, 110u8, 100u8, 101u8, 120u8] {
        TokenType::IdentifierOrKeyword(KeywordKind::Index)
    } else if l =~= seq![105u8, 110u8, 104u8, 101u8, 114u8, 105u8, 116u8, 101u8, 100u8] {
        TokenType::Keyword(KeywordKind::Inherited)
    } else if l =~= seq![105u8, 110u8, 105u8, 116u8, 105u8, 97u8, 108u8, 105u8, 122u8, 97u8, 116u8, 105u8, 111u8, 110u8] {
        TokenType::Keyword(KeywordKind::Initialization)
    } else if l =~= seq![105u8, 110u8, 108u8, 105u8, 110u8, 101u8] {
        TokenType::Keyword(KeywordKind::Inline)
    } else if l =~= seq![105u8, 110u8, 116u8, 101u8, 114u8, 102u8, 97u8, 99u8, 101u8] {
        TokenType::Keyword(KeywordKind::Interface)
    } else if l =~= seq![105u8, 115u8] {
        TokenType::Keyword(KeywordKind::Is)
    } else if l =~= seq![108u8, 97u8, 98u8, 101u8, 108u8] {
        TokenType::Keyword(KeywordKind::Label)
    } else if l =~= seq![108u8, 105u8, 98u8, 114u8, 97u8, 114u8, 121u8] {
        TokenType::Keyword(KeywordKind::Library)
    } else if l =~= seq![108u8, 111u8, 99u8, 97u8, 108u8] {
        TokenType::IdentifierOrKeyword(KeywordKind::Local)
    } else if l =~= seq![109u8, 101u8, 115u8, 115u8, 97u8, 103u8, 101u8] {
        TokenType::IdentifierOrKeyword(KeywordKind::Message)
    } else if l =~= seq![109u8, 111u8, 100u8] {
        TokenType::Keyword(KeywordKind::Mod)
    } else if l =~= seq![110u8, 97u8, 109u8, 101u8] {
        TokenType::IdentifierOrKeyword(KeywordKind::Name)
    } else if l =~= seq![110u8, 101u8, 97u8, 114u8] {
        TokenType::IdentifierOrKeyword(KeywordKind::Near)
    } else if l =~= seq![110u8, 105u8, 108u8] {
        TokenType::Keyword(KeywordKind::Nil)
    } else if l =~= seq![110u8, 111u8, 100u8, 101u8, 102u8, 97u8, 117u8, 108u8, 116u8] {
        TokenType::IdentifierOrKeyword(KeywordKind::NoDefault)
    } else if l =~= seq![110u8, 111u8, 116u8] {
        TokenType::Keyword(KeywordKind::Not)
    } else if l =~= seq![111u8, 98u8, 106u8, 101u8, 99u8, 116u8] {
        TokenType::Keyword(KeywordKind::Object)
    } else if l =~= seq![111u8, 102u8] {
        TokenType::Keyword(KeywordKind::Of)
    } else if l =~= seq![111u8, 110u8] {
        TokenType::IdentifierOrKeyword(KeywordKind::On)
    } else if l =~= seq![111u8, 112u8, 101u8, 114u8, 97u8, 116u8, 111u8, 114u8] {
        TokenType::IdentifierOrKeyword(KeywordKind::Operator)
    } else if l =~= seq![111u8, 114u8] {
        TokenType::Keyword(KeywordKind::Or)
    } else if l =~= seq![111u8, 117u8, 116u8] {
        TokenType::IdentifierOrKeyword(KeywordKind::Out)
    } else if l =~= seq![111u8, 118u8, 101u8, 114u8, 108u8, 111u8, 97u8, 100u8] {
        TokenType::IdentifierOrKeyword(KeywordKind::Overload)
    } else if l =~= seq![111u8, 118u8, 101u8, 114u8, 114u8, 105u8, 100u8, 101u8] {
        TokenType::IdentifierOrKeyword(KeywordKind::Override)
    } else if l =~= seq![112u8, 97u8, 99u8, 107u8, 97u8, 103u8, 101u8] {
        TokenType::IdentifierOrKeyword(KeywordKind::Package)
    } else if l =~= seq![112u8, 97u8, 99u8, 107u8, 101u8, 100u8] {
        TokenType::Keyword(KeywordKind::Packed)
    } else if l =~= seq![112u8, 97u8, 115u8, 99u8, 97u8, 108u8] {
        TokenType::IdentifierOrKeyword(KeywordKind::Pascal)
    } else if l =~= seq![112u8, 108u8, 97u8, 116u8, 102u8, 111u8, 114u8, 109u8] {
        TokenType::IdentifierOrKeyword(KeywordKind::Platform)
    } else if l =~= seq![112u8, 114u8, 105u8, 118u8, 97u8, 116u8, 101u8] {
        TokenType::IdentifierOrKeyword(KeywordKind::Private)
    } else if l =~= seq![112u8, 114u8, 111u8, 99u8, 101u8, 100u8, 117u8, 114u8, 101u8] {
        TokenType::Keyword(KeywordKind::Procedure)
    } else if l =~= seq![112u8, 114u8, 111u8, 103u8, 114u8, 97u8, 109u8] {
        TokenType::Keyword(KeywordKind::Program)
    } else if l =~= seq![112u8, 114u8, 111u8, 112u8, 101u8, 114u8, 116u8, 121u8] {
        TokenType::Keyword(KeywordKind::Property)
    } else if l =~= seq![112u8, 114u8, 111u8, 116u8, 101u8, 99u8, 116u8, 101u8, 100u8] {
        TokenType::IdentifierOrKeyword(KeywordKind::Protected)
    } else if l =~= seq![112u8, 117u8, 98u8, 108u8, 105u8, 99u8] {
        TokenType::IdentifierOrKeyword(KeywordKind::Public)
    } else if l =~= seq![112u8, 117u8, 98u8, 108u8, 105u8, 115u8, 104u8, 101u8, 100u8] {
        TokenType::IdentifierOrKeyword(KeywordKind::Published)
    } else if l =~= seq![114u8, 97u8, 105u8, 115u8, 101u8] {
        TokenType::Keyword(KeywordKind::Raise)
    } else if l =~= seq![114u8, 101u8, 97u8, 100u8] {
        TokenType::IdentifierOrKeyword(KeywordKind::Read)
    } else if l =~= seq![114u8, 101u8, 97u8, 100u8, 111u8, 110u8, 108u8, 121u8] {
        TokenType::IdentifierOrKeyword(KeywordKind::ReadOnly)
    } else if l =~= seq![114u8, 101u8, 99u8, 111u8, 114u8, 100u8] {
        TokenType::Keyword(KeywordKind::Record)
    } else if l =~= seq![114u8, 101u8, 102u8, 101u8, 114u8, 101u8, 110u8, 99u8, 101u8] {
        TokenType::IdentifierOrKeyword(KeywordKind::Reference)
    } else if l =~= seq![114u8, 101u8, 103u8, 105u8, 115u8, 116u8, 101u8, 114u8] {
        TokenType::IdentifierOrKeyword(KeywordKind::Register)
    } else if l =~= seq![114u8, 101u8, 105u8, 110u8, 116u8, 114u8, 111u8, 100u8, 117u8, 99u8, 101u8] {
        TokenType::IdentifierOrKeyword(KeywordKind::Reintroduce)
    } else if l =~= seq![114u8, 101u8, 109u8, 111u8, 118u8, 101u8] {
        TokenType::IdentifierOrKeyword(KeywordKind::Remove)
    } else if l =~= seq![114u8, 101u8, 112u8, 101u8, 97u8, 116u8] {
        TokenType::Keyword(KeywordKind::Repeat)
    } else if l =~= seq![114u8, 101u8, 113u8, 117u8, 105u8, 114u8, 101u8, 115u8] {
        TokenType::IdentifierOrKeyword(KeywordKind::Requires)
    } else if l =~= seq![114u8, 101u8, 115u8, 105u8, 100u8, 101u8, 110u8, 116u8] {
        TokenType::IdentifierOrKeyword(KeywordKind::Resident)
    } else if l =~= seq![114u8, 101u8, 115u8, 111u8, 117u8, 114u8, 99u8, 101u8, 115u8, 116u8, 114u8, 105u8, 110u8, 103u8] {
        TokenType::Keyword(KeywordKind::ResourceString)
    } else if l =~= seq![115u8, 97u8, 102u8, 101u8, 99u8, 97u8, 108u8, 108u8] {
        TokenType::IdentifierOrKeyword(KeywordKind::SafeCall)
    } else if l =~= seq![115u8, 101u8, 97u8, 108u8, 101u8, 100u8] {
        TokenType::IdentifierOrKeyword(KeywordKind::Sealed)
    } else if l =~= seq![115u8, 101u8, 116u8] {
        TokenType::Keyword(KeywordKind::SetOf)
    } else if l =~= seq![115u8, 104u8, 108u8] {
        TokenType::Keyword(KeywordKind::Shl)
    } else if l =~= seq![115u8, 104u8, 114u8] {
        TokenType::Keyword(KeywordKind::Shr)
    } else if l =~= seq![115u8, 116u8, 97u8, 116u8, 105u8, 99u8] {
        TokenType::IdentifierOrKeyword(KeywordKind::Static)
    } else if l =~= seq![115u8, 116u8, 100u8, 99u8, 97u8, 108u8, 108u8] {
        TokenType::IdentifierOrKeyword(KeywordKind::StdCall)
    } else if l =~= seq![115u8, 116u8, 111u8, 114u8, 101u8, 100u8] {
        TokenType::IdentifierOrKeyword(KeywordKind::Stored)
    } else if l =~= seq![115u8, 116u8, 114u8, 105u8, 99u8, 116u8] {
        TokenType::IdentifierOrKeyword(KeywordKind::Strict)
    } else if l =~= seq![116u8, 104u8, 101u8, 110u8] {
        TokenType::Keyword(KeywordKind::Then)
    } else if l =~= seq![116u8, 104u8, 114u8, 101u8, 97u8, 100u8, 118u8, 97u8, 114u8] {
        TokenType::Keyword(KeywordKind::ThreadVar)
    } else if l =~= seq![116u8, 111u8] {
        TokenType::Keyword(KeywordKind::To)
    } else if l =~= seq![116u8, 114u8, 121u8] {
        TokenType::Keyword(KeywordKind::Try)
    } else if l =~= seq![116u8, 121u8, 112u8, 101u8] {
        TokenType::Keyword(KeywordKind::Type)
    } else if l =~= seq![117u8, 110u8, 105u8, 116u8] {
        TokenType::Keyword(KeywordKind::Unit)
    } else if l =~= seq![117u8, 110u8, 115u8, 97u8, 102u8, 101u8] {
        TokenType::IdentifierOrKeyword(KeywordKind::Unsafe)
    } else if l =~= seq![117u8, 110u8, 116u8, 105u8, 108u8] {
        TokenType::Keyword(KeywordKind::Until)
    } else if l =~= seq![117u8, 115u8, 101u8, 115u8] {
        TokenType::Keyword(KeywordKind::Uses)
    } else if l =~= seq![118u8, 97u8, 114u8] {
        TokenType::Keyword(KeywordKind::Var(DeclKind::Section))
    } else if l =~= seq![118u8, 97u8, 114u8, 97u8, 114u8, 103u8, 115u8] {
        TokenType::IdentifierOrKeyword(KeywordKind::VarArgs)
    } else if l =~= seq![118u8, 97u8, 114u8, 105u8, 97u8, 110u8, 116u8] {
        TokenType::IdentifierOrKeyword(KeywordKind::Variant)
    } else if l =~= seq![118u8, 105u8, 114u8, 116u8, 117u8, 97u8, 108u8] {
        TokenType::IdentifierOrKeyword(KeywordKind::Virtual)
    } else if l =~= seq![119u8, 104u8, 105u8, 108u8, 101u8] {
        TokenType::Keyword(KeywordKind::While)
    } else if l =~= seq![119u8, 105u8, 116u8, 104u8] {
        TokenType::Keyword(KeywordKind::With)
    } else if l =~= seq![119u8, 114u8, 105u8, 116u8, 101u8] {
        TokenType::IdentifierOrKeyword(KeywordKind::Write)
    } else if l =~= seq![119u8, 114u8, 105u8, 116u8, 101u8, 111u8, 110u8, 108u8, 121u8] {
        TokenType::IdentifierOrKeyword(KeywordKind::WriteOnly)
    } else if l =~= seq![120u8, 111u8, 114u8] {
        TokenType::Keyword(KeywordKind::Xor)
    } else {
        TokenType::Identifier
    }
}

/// Case-insensitive keyword recognition over the fixed, closed keyword set.
#[verifier::rlimit(100)]
pub fn get_word_token_type(w: &[u8]) -> (t: TokenType)
    ensures
        t == spec_word_token_type(w@),
{
    let lw = lower_bytes(w);
    if kw8(&lw, 97, 98, 115, 111, 108, 117, 116, 101) {
        TokenType::IdentifierOrKeyword(KeywordKind::Absolute)
    } else if kw8(&lw, 97, 98, 115, 116, 114, 97, 99, 116) {
        TokenType::IdentifierOrKeyword(KeywordKind::Abstract)
    } else if kw3(&lw, 97, 100, 100) {
        TokenType::IdentifierOrKeyword(KeywordKind::Add)
    } else if kw5(&lw, 97, 108, 105, 103, 110) {
        TokenType::IdentifierOrKeyword(KeywordKind::Align)
    } else if kw3(&lw, 97, 110, 100) {
        TokenType::Keyword(KeywordKind::And)
    } else if kw5(&lw, 97, 114, 114, 97, 121) {
        TokenType::Keyword(KeywordKind::Array)
    } else if kw2(&lw, 97, 115) {
        TokenType::Keyword(KeywordKind::As)
    } else if kw3(&lw, 97, 115, 109) {
        TokenType::Keyword(KeywordKind::Asm)
    } else if kw9(&lw, 97, 115, 115, 101, 109, 98, 108, 101, 114) {
        TokenType::IdentifierOrKeyword(KeywordKind::Assembler)
    } else if kw2(&lw, 97, 116) {
        TokenType::IdentifierOrKeyword(KeywordKind::At)
    } else if kw9(&lw, 97, 117, 116, 111, 109, 97, 116, 101, 100) {
        TokenType::IdentifierOrKeyword(KeywordKind::Automated)
    } else if kw5(&lw, 98, 101, 103, 105, 110) {
        TokenType::Keyword(KeywordKind::Begin)
    } else if kw4(&lw, 99, 97, 115, 101) {
        TokenType::Keyword(KeywordKind::Case)
    } else if kw5(&lw, 99, 100, 101, 99, 108) {
        TokenType::IdentifierOrKeyword(KeywordKind::Cdecl)
    } else if kw5(&lw, 99, 108, 97, 115, 115) {
        TokenType::Keyword(KeywordKind::Class)
    } else if kw5(&lw, 99, 111, 110, 115, 116) {
        TokenType::Keyword(KeywordKind::Const(DeclKind::Section))
    } else if kw11(&lw, 99, 111, 110, 115, 116, 114, 117, 99, 116, 111, 114) {
        TokenType::Keyword(KeywordKind::Constructor)
    } else if kw8(&lw, 99, 111, 110, 116, 97, 105, 110, 115) {
        TokenType::IdentifierOrKeyword(KeywordKind::Contains)
    } else if kw7(&lw, 100, 101, 102, 97, 117, 108, 116) {
        TokenType::IdentifierOrKeyword(KeywordKind::Default)
    } else if kw7(&lw, 100, 101, 108, 97, 121, 101, 100) {
        TokenType::IdentifierOrKeyword(KeywordKind::Delayed)
    } else if kw10(&lw, 100, 101, 112, 114, 101, 99, 97, 116, 101, 100) {
        TokenType::IdentifierOrKeyword(KeywordKind::Deprecated)
    } else if kw10(&lw, 100, 101, 115, 116, 114, 117, 99, 116, 111, 114) {
        TokenType::Keyword(KeywordKind::Destructor)
    } else if kw6(&lw, 100, 105, 115, 112, 105, 100) {
        TokenType::IdentifierOrKeyword(KeywordKind::DispId)
    } else if kw13(&lw, 100, 105, 115, 112, 105, 110, 116, 101, 114, 102, 97, 99, 101) {
        TokenType::Keyword(KeywordKind::DispInterface)
    } else if kw3(&lw, 100, 105, 118) {
        TokenType::Keyword(KeywordKind::Div)
    } else if kw2(&lw, 100, 111) {
        TokenType::Keyword(KeywordKind::Do)
    } else if kw6(&lw, 100, 111, 119, 110, 116, 111) {
        TokenType::Keyword(KeywordKind::Downto)
    } else if kw7(&lw, 100, 121, 110, 97, 109, 105, 99) {
        TokenType::IdentifierOrKeyword(KeywordKind::Dynamic)
    } else if kw4(&lw, 101, 108, 115, 101) {
        TokenType::Keyword(KeywordKind::Else)
    } else if kw3(&lw, 101, 110, 100) {
        TokenType::Keyword(KeywordKind::End)
    } else if kw6(&lw, 101, 120, 99, 101, 112, 116) {
        TokenType::Keyword(KeywordKind::Except)
    } else if kw12(&lw, 101, 120, 112, 101, 114, 105, 109, 101, 110, 116, 97, 108) {
        TokenType::IdentifierOrKeyword(KeywordKind::Experimental)
    } else if kw6(&lw, 101, 120, 112, 111, 114, 116) {
        TokenType::IdentifierOrKeyword(KeywordKind::Export)
    } else if kw7(&lw, 101, 120, 112, 111, 114, 116, 115) {
        TokenType::Keyword(KeywordKind::Exports)
    } else if kw8(&lw, 101, 120, 116, 101, 114, 110, 97, 108) {
        TokenType::IdentifierOrKeyword(KeywordKind::External)
    } else if kw3(&lw, 102, 97, 114) {
        TokenType::IdentifierOrKeyword(KeywordKind::Far)
    } else if kw4(&lw, 102, 105, 108, 101) {
        TokenType::Keyword(KeywordKind::File)
    } else if kw5(&lw, 102, 105, 110, 97, 108) {
        TokenType::IdentifierOrKeyword(KeywordKind::Final)
    } else if kw12(&lw, 102, 105, 110, 97, 108, 105, 122, 97, 116, 105, 111, 110) {
        TokenType::Keyword(KeywordKind::Finalization)
    } else if kw7(&lw, 102, 105, 110, 97, 108, 108, 121) {
        TokenType::Keyword(KeywordKind::Finally)
    } else if kw3(&lw, 102, 111, 114) {
        TokenType::Keyword(KeywordKind::For)
    } else if kw7(&lw, 102, 111, 114, 119, 97, 114, 100) {
        TokenType::IdentifierOrKeyword(KeywordKind::Forward)
    } else if kw8(&lw, 102, 117, 110, 99, 116, 105, 111, 110) {
        TokenType::Keyword(KeywordKind::Function)
    } else if kw4(&lw, 103, 111, 116, 111) {
        TokenType::Keyword(KeywordKind::Goto)
    } else if kw6(&lw, 104, 101, 108, 112, 101, 114) {
        TokenType::IdentifierOrKeyword(KeywordKind::Helper)
    } else if kw2(&lw, 105, 102) {
        TokenType::Keyword(KeywordKind::If)
    } else if kw14(&lw, 105, 109, 112, 108, 101, 109, 101, 110, 116, 97, 116, 105, 111, 110) {
        TokenType::Keyword(KeywordKind::Implementation)
    } else if kw10(&lw, 105, 109, 112, 108, 101, 109, 101, 110, 116, 115) {
        TokenType::IdentifierOrKeyword(KeywordKind::Implements)
    } else if kw2(&lw, 105, 110) {
        TokenType::Keyword(KeywordKind::In(InKind::Op))
    } else if kw5(&lw, 105, 110, 100, 101, 120) {
        TokenType::IdentifierOrKeyword(KeywordKind::Index)
    } else if kw9(&lw, 105, 110, 104, 101, 114, 105, 116, 101, 100) {
        TokenType::Keyword(KeywordKind::Inherited)
    } else if kw14(&lw, 105, 110, 105, 116, 105, 97, 108, 105, 122, 97, 116, 105, 111, 110) {
        TokenType::Keyword(KeywordKind::Initialization)
    } else if kw6(&lw, 105, 110, 108, 105, 110, 101) {
        TokenType::Keyword(KeywordKind::Inline)
    } else if kw9(&lw, 105, 110, 116, 101, 114, 102, 97, 99, 101) {
        TokenType::Keyword(KeywordKind::Interface)
    } else if kw2(&lw, 105, 115) {
        TokenType::Keyword(KeywordKind::Is)
    } else if kw5(&lw, 108, 97, 98, 101, 108) {
        TokenType::Keyword(KeywordKind::Label)
    } else if kw7(&lw, 108, 105, 98, 114, 97, 114, 121) {
        TokenType::Keyword(KeywordKind::Library)
    } else if kw5(&lw, 108, 111, 99, 97, 108) {
        TokenType::IdentifierOrKeyword(KeywordKind::Local)
    } else if kw7(&lw, 109, 101, 115, 115, 97, 103, 101) {
        TokenType::IdentifierOrKeyword(KeywordKind::Message)
    } else if kw3(&lw, 109, 111, 100) {
        TokenType::Keyword(KeywordKind::Mod)
    } else if kw4(&lw, 110, 97, 109, 101) {
        TokenType::IdentifierOrKeyword(KeywordKind::Name)
    } else if kw4(&lw, 110, 101, 97, 114) {
        TokenType::IdentifierOrKeyword(KeywordKind::Near)
    } else if kw3(&lw, 110, 105, 108) {
        TokenType::Keyword(KeywordKind::Nil)
    } else if kw9(&lw, 110, 111, 100, 101, 102, 97, 117, 108, 116) {
        TokenType::IdentifierOrKeyword(KeywordKind::NoDefault)
    } else if kw3(&lw, 110, 111, 116) {
        TokenType::Keyword(KeywordKind::Not)
    } else if kw6(&lw, 111, 98, 106, 101, 99, 116) {
        TokenType::Keyword(KeywordKind::Object)
    } else if kw2(&lw, 111, 102) {
        TokenType::Keyword(KeywordKind::Of)
    } else if kw2(&lw, 111, 110) {
        TokenType::IdentifierOrKeyword(KeywordKind::On)
    } else if kw8(&lw, 111, 112, 101, 114, 97, 116, 111, 114) {
        TokenType::IdentifierOrKeyword(KeywordKind::Operator)
    } else if kw2(&lw, 111, 114) {
        TokenType::Keyword(KeywordKind::Or)
    } else if kw3(&lw, 111, 117, 116) {
        TokenType::IdentifierOrKeyword(KeywordKind::Out)
    } else if kw8(&lw, 111, 118, 101, 114, 108, 111, 97, 100) {
        TokenType::IdentifierOrKeyword(KeywordKind::Overload)
    } else if kw8(&lw, 111, 118, 101, 114, 114, 105, 100, 101) {
        TokenType::IdentifierOrKeyword(KeywordKind::Override)
    } else if kw7(&lw, 112, 97, 99, 107, 97, 103, 101) {
        TokenType::IdentifierOrKeyword(KeywordKind::Package)
    } else if kw6(&lw, 112, 97, 99, 107, 101, 100) {
        TokenType::Keyword(KeywordKind::Packed)
    } else if kw6(&lw, 112, 97, 115, 99, 97, 108) {
        TokenType::IdentifierOrKeyword(KeywordKind::Pascal)
    } else if kw8(&lw, 112, 108, 97, 116, 102, 111, 114, 109) {
        TokenType::IdentifierOrKeyword(KeywordKind::Platform)
    } else if kw7(&lw, 112, 114, 105, 118, 97, 116, 101) {
        TokenType::IdentifierOrKeyword(KeywordKind::Private)
    } else if kw9(&lw, 112, 114, 111, 99, 101, 100, 117, 114, 101) {
        TokenType::Keyword(KeywordKind::Procedure)
    } else if kw7(&lw, 112, 114, 111, 103, 114, 97, 109) {
        TokenType::Keyword(KeywordKind::Program)
    } else if kw8(&lw, 112, 114, 111, 112, 101, 114, 116, 121) {
        TokenType::Keyword(KeywordKind::Property)
    } else if kw9(&lw, 112, 114, 111, 116, 101, 99, 116, 101, 100) {
        TokenType::IdentifierOrKeyword(KeywordKind::Protected)
    } else if kw6(&lw, 112, 117, 98, 108, 105, 99) {
        TokenType::IdentifierOrKeyword(KeywordKind::Public)
    } else if kw9(&lw, 112, 117, 98, 108, 105, 115, 104, 101, 100) {
        TokenType::IdentifierOrKeyword(KeywordKind::Published)
    } else if kw5(&lw, 114, 97, 105, 115, 101) {
        TokenType::Keyword(KeywordKind::Raise)
    } else if kw4(&lw, 114, 101, 97, 100) {
        TokenType::IdentifierOrKeyword(KeywordKind::Read)
    } else if kw8(&lw, 114, 101, 97, 100, 111, 110, 108, 121) {
        TokenType::IdentifierOrKeyword(KeywordKind::ReadOnly)
    } else if kw6(&lw, 114, 101, 99, 111, 114, 100) {
        TokenType::Keyword(KeywordKind::Record)
    } else if kw9(&lw, 114, 101, 102, 101, 114, 101, 110, 99, 101) {
        TokenType::IdentifierOrKeyword(KeywordKind::Reference)
    } else if kw8(&lw, 114, 101, 103, 105, 115, 116, 101, 114) {
        TokenType::IdentifierOrKeyword(KeywordKind::Register)
    } else if kw11(&lw, 114, 101, 105, 110, 116, 114, 111, 100, 117, 99, 101) {
        TokenType::IdentifierOrKeyword(KeywordKind::Reintroduce)
    } else if kw6(&lw, 114, 101, 109, 111, 118, 101) {
        TokenType::IdentifierOrKeyword(KeywordKind::Remove)
    } else if kw6(&lw, 114, 101, 112, 101, 97, 116) {
        TokenType::Keyword(KeywordKind::Repeat)
    } else if kw8(&lw, 114, 101, 113, 117, 105, 114, 101, 115) {
        TokenType::IdentifierOrKeyword(KeywordKind::Requires)
    } else if kw8(&lw, 114, 101, 115, 105, 100, 101, 110, 116) {
        TokenType::IdentifierOrKeyword(KeywordKind::Resident)
    } else if kw14(&lw, 114, 101, 115, 111, 117, 114, 99, 101, 115, 116, 114, 105, 110, 103) {
        TokenType::Keyword(KeywordKind::ResourceString)
    } else if kw8(&lw, 115, 97, 102, 101, 99, 97, 108, 108) {
        TokenType::IdentifierOrKeyword(KeywordKind::SafeCall)
    } else if kw6(&lw, 115, 101, 97, 108, 101, 100) {
        TokenType::IdentifierOrKeyword(KeywordKind::Sealed)
    } else if kw3(&lw, 115, 101, 116) {
        TokenType::Keyword(KeywordKind::SetOf)
    } else if kw3(&lw, 115, 104, 108) {
        TokenType::Keyword(KeywordKind::Shl)
    } else if kw3(&lw, 115, 104, 114) {
        TokenType::Keyword(KeywordKind::Shr)
    } else if kw6(&lw, 115, 116, 97, 116, 105, 99) {
        TokenType::IdentifierOrKeyword(KeywordKind::Static)
    } else if kw7(&lw, 115, 116, 100, 99, 97, 108, 108) {
        TokenType::IdentifierOrKeyword(KeywordKind::StdCall)
    } else if kw6(&lw, 115, 116, 111, 114, 101, 100) {
        TokenType::IdentifierOrKeyword(KeywordKind::Stored)
    } else if kw6(&lw, 115, 116, 114, 105, 99, 116) {
        TokenType::IdentifierOrKeyword(KeywordKind::Strict)
    } else if kw4(&lw, 116, 104, 101, 110) {
        TokenType::Keyword(KeywordKind::Then)
    } else if kw9(&lw, 116, 104, 114, 101, 97, 100, 118, 97, 114) {
        TokenType::Keyword(KeywordKind::ThreadVar)
    } else if kw2(&lw, 116, 111) {
        TokenType::Keyword(KeywordKind::To)
    } else if kw3(&lw, 116, 114, 121) {
        TokenType::Keyword(KeywordKind::Try)
    } else if kw4(&lw, 116, 121, 112, 101) {
        TokenType::Keyword(KeywordKind::Type)
    } else if kw4(&lw, 117, 110, 105, 116) {
        TokenType::Keyword(KeywordKind::Unit)
    } else if kw6(&lw, 117, 110, 115, 97, 102, 101) {
        TokenType::IdentifierOrKeyword(KeywordKind::Unsafe)
    } else if kw5(&lw, 117, 110, 116, 105, 108) {
        TokenType::Keyword(KeywordKind::Until)
    } else if kw4(&lw, 117, 115, 101, 115) {
        TokenType::Keyword(KeywordKind::Uses)
    } else if kw3(&lw, 118, 97, 114) {
        TokenType::Keyword(KeywordKind::Var(DeclKind::Section))
    } else if kw7(&lw, 118, 97, 114, 97, 114, 103, 115) {
        TokenType::IdentifierOrKeyword(KeywordKind::VarArgs)
    } else if kw7(&lw, 118, 97, 114, 105, 97, 110, 116) {
        TokenType::IdentifierOrKeyword(KeywordKind::Variant)
    } else if kw7(&lw, 118, 105, 114, 116, 117, 97, 108) {
        TokenType::IdentifierOrKeyword(KeywordKind::Virtual)
    } else if kw5(&lw, 119, 104, 105, 108, 101) {
        TokenType::Keyword(KeywordKind::While)
    } else if kw4(&lw, 119, 105, 116, 104) {
        TokenType::Keyword(KeywordKind::With)
    } else if kw5(&lw, 119, 114, 105, 116, 101) {
        TokenType::IdentifierOrKeyword(KeywordKind::Write)
    } else if kw9(&lw, 119, 114, 105, 116, 101, 111, 110, 108, 121) {
        TokenType::IdentifierOrKeyword(KeywordKind::WriteOnly)
    } else if kw3(&lw, 120, 111, 114) {
        TokenType::Keyword(KeywordKind::Xor)
    } else {
        TokenType::Identifier
    }
}

} // verus!
