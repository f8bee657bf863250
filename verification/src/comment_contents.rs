use vstd::prelude::*;

use crate::lang::{CommentKind, FormattedTokens, LogicalLine, Token, TokenType};

verus! {

/// Normalises comment and directive contents: a line comment gets one space
/// after its slashes (unless empty or a separator run) and loses trailing
/// ASCII whitespace; a compiler or conditional directive gets its header word
/// or switch block upper-cased. Block comments and frozen tokens are
/// untouched.
pub struct CommentFormatter {}

/// ASCII whitespace as `trim_ascii_end` sees it.
pub open spec fn spec_is_ascii_ws(b: u8) -> bool {
    b == 0x20 || b == 0x09 || b == 0x0a || b == 0x0c || b == 0x0d
}

/// An ASCII letter or digit.
pub open spec fn spec_is_alnum(b: u8) -> bool {
    (48 <= b && b <= 57) || (65 <= b && b <= 90) || (97 <= b && b <= 122)
}

/// An ASCII lower-case letter.
pub open spec fn spec_is_lower(b: u8) -> bool {
    97 <= b && b <= 122
}

/// `b` with an ASCII lower-case letter folded to upper case.
pub open spec fn spec_upper_byte(b: u8) -> u8 {
    if 97 <= b && b <= 122 {
        (b - 32) as u8
    } else {
        b
    }
}

pub open spec fn spec_upper_bytes(s: Seq<u8>) -> Seq<u8> {
    s.map_values(|b: u8| spec_upper_byte(b))
}

/// `s` with its trailing ASCII whitespace removed.
pub open spec fn spec_trim_ascii_end(s: Seq<u8>) -> Seq<u8>
    decreases s.len(),
{
    if s.len() > 0 && spec_is_ascii_ws(s.last()) {
        spec_trim_ascii_end(s.drop_last())
    } else {
        s
    }
}

/// A separator run: at least ten bytes of one repeated character that is not
/// alphanumeric (trailing ASCII whitespace disregarded). Characters compare
/// as characters: a run of one multi-byte character is its byte sequence
/// repeated; an ASCII first character is judged by the ASCII classes, any
/// other by the Unicode alphanumeric property.
pub open spec fn spec_is_separator(c: Seq<u8>) -> bool {
    let t = spec_trim_ascii_end(c);
    let l = crate::unicode::spec_utf8_len(t[0]);
    &&& t.len() >= 10
    &&& (t.len() as int) % l == 0
    &&& (forall|i: int| 0 <= i < t.len() ==> #[trigger] t[i] == t[i % l])
    &&& if t[0] < 0x80 {
        !spec_is_alnum(t[0])
    } else {
        !crate::unicode::spec_first_char_alphanumeric(t, l)
    }
}

/// Where a line comment's text begins: after `///` for a doc comment, after
/// `//` otherwise.
pub open spec fn spec_body_start(c: Seq<u8>) -> int {
    if c.len() >= 3 && c[2] == 47 {
        3
    } else {
        2
    }
}

pub open spec fn spec_starts_line_comment(c: Seq<u8>) -> bool {
    c.len() >= 2 && c[0] == 47 && c[1] == 47
}

/// What a line comment's content becomes: one space inserted after the
/// slashes when the text follows them directly and is not a separator run,
/// and trailing ASCII whitespace dropped.
pub open spec fn spec_format_line_comment(c: Seq<u8>) -> Seq<u8> {
    if !spec_starts_line_comment(c) {
        c
    } else {
        let bs = spec_body_start(c);
        let body = c.skip(bs);
        let base = if body.len() > 0 && !spec_is_ascii_ws(body[0]) && !spec_is_separator(body) {
            c.take(bs) + seq![32u8] + body
        } else {
            c
        };
        spec_trim_ascii_end(base)
    }
}

/// The comment prefix law: a formatted line comment is empty after its
/// slashes, or its text starts with ASCII whitespace, or it is a separator
/// run.
pub open spec fn spec_line_comment_ok(c: Seq<u8>) -> bool {
    spec_starts_line_comment(c) ==> {
        let body = c.skip(spec_body_start(c));
        body.len() == 0 || spec_is_ascii_ws(body[0]) || spec_is_separator(body)
    }
}

proof fn lemma_trim_end_len(s: Seq<u8>)
    ensures
        spec_trim_ascii_end(s).len() <= s.len(),
        spec_trim_ascii_end(s) == s.take(spec_trim_ascii_end(s).len() as int),
        spec_trim_ascii_end(s).len() > 0 ==> !spec_is_ascii_ws(spec_trim_ascii_end(s).last()),
        forall|i: int| spec_trim_ascii_end(s).len() <= i < s.len() ==> spec_is_ascii_ws(#[trigger] s[i]),
    decreases s.len(),
{
    if s.len() > 0 && spec_is_ascii_ws(s.last()) {
        lemma_trim_end_len(s.drop_last());
        assert(spec_trim_ascii_end(s) == spec_trim_ascii_end(s.drop_last()));
        assert(s.drop_last().take(spec_trim_ascii_end(s).len() as int) =~= s.take(
            spec_trim_ascii_end(s).len() as int,
        ));
        assert forall|i: int|
            spec_trim_ascii_end(s).len() <= i < s.len() implies spec_is_ascii_ws(
            #[trigger] s[i],
        ) by {
            if i < s.len() - 1 {
                assert(s[i] == s.drop_last()[i]);
            }
        }
    } else {
        assert(s.take(s.len() as int) =~= s);
    }
}

proof fn lemma_trim_end_idempotent(s: Seq<u8>)
    ensures
        spec_trim_ascii_end(spec_trim_ascii_end(s)) == spec_trim_ascii_end(s),
    decreases s.len(),
{
    lemma_trim_end_len(s);
    if s.len() > 0 && spec_is_ascii_ws(s.last()) {
        lemma_trim_end_idempotent(s.drop_last());
    }
}

/// The law behind the line-comment pass: its result always satisfies the
/// comment prefix law; a content that already satisfies it and carries no
/// trailing ASCII whitespace is left unchanged; and hence the rewrite is
/// idempotent.
pub proof fn lemma_comment_prefix_law(c: Seq<u8>)
    ensures
        spec_line_comment_ok(spec_format_line_comment(c)),
        spec_line_comment_ok(c) && spec_trim_ascii_end(c) == c ==> spec_format_line_comment(c)
            == c,
        spec_format_line_comment(spec_format_line_comment(c)) == spec_format_line_comment(c),
{
    lemma_comment_prefix_idempotence_support(c);
    if spec_starts_line_comment(c) {
        let bs = spec_body_start(c);
        let body = c.skip(bs);
        lemma_trim_end_len(body);
        if body.len() > 0 && !spec_is_ascii_ws(body[0]) && !spec_is_separator(body) {
            let base = c.take(bs) + seq![32u8] + body;
            let r = spec_trim_ascii_end(base);
            lemma_trim_end_len(base);
            assert(base.len() == c.len() + 1);
            assert(base[bs] == 32u8);
            assert(base[bs + 1] == body[0]);
            // the non-whitespace first text byte survives the trim
            assert(!spec_is_ascii_ws(base[bs + 1]));
            assert(r.len() > bs + 1);
            assert(spec_starts_line_comment(r));
            assert(r[2] == base[2]);
            assert(spec_body_start(r) == bs);
            assert(r.skip(bs).len() > 0);
            assert(r.skip(bs)[0] == r[bs]);
            assert(r[bs] == 32u8);
            assert(spec_line_comment_ok(r));
        } else {
            let r = spec_trim_ascii_end(c);
            lemma_trim_end_len(c);
            if r.len() <= 2 {
                if spec_starts_line_comment(r) {
                    assert(r.skip(spec_body_start(r)).len() == 0);
                }
            } else {
                assert(spec_starts_line_comment(r));
                assert(r[2] == c[2]);
                assert(spec_body_start(r) == bs);
                let rbody = r.skip(bs);
                if body.len() == 0 {
                    assert(r.len() <= c.len());
                    assert(rbody.len() == 0);
                } else if spec_is_ascii_ws(body[0]) {
                    if rbody.len() > 0 {
                        assert(rbody[0] == body[0]);
                    }
                } else {
                    // separator run: trimming keeps it one
                    assert(spec_is_separator(body));
                    assert(rbody =~= spec_trim_ascii_end(body)) by {
                        lemma_trim_skip_commutes(c, bs);
                    }
                    lemma_trim_end_idempotent(body);
                    assert(spec_trim_ascii_end(rbody) == rbody);
                    assert(spec_is_separator(rbody));
                }
            }
        }
        if spec_line_comment_ok(c) && spec_trim_ascii_end(c) == c {
            assert(spec_format_line_comment(c) == c);
        }
    }
}

/// Trimming commutes with dropping a whitespace-free prefix.
proof fn lemma_trim_skip_commutes(c: Seq<u8>, bs: int)
    requires
        0 <= bs <= c.len(),
        forall|i: int| 0 <= i < bs ==> !spec_is_ascii_ws(#[trigger] c[i]),
    ensures
        spec_trim_ascii_end(c).skip(bs) =~= spec_trim_ascii_end(c.skip(bs)),
{
    lemma_trim_end_len(c);
    lemma_trim_end_len(c.skip(bs));
    let t = spec_trim_ascii_end(c);
    let u = spec_trim_ascii_end(c.skip(bs));
    // both are the prefix up to the last non-whitespace byte at or past bs
    if t.len() < bs {
        assert(spec_is_ascii_ws(c[bs - 1])) by {
            assert(t.len() <= bs - 1 < c.len() ==> spec_is_ascii_ws(c[bs - 1]));
        }
        assert(false);
    }
    assert(t.len() - bs <= u.len()) by {
        if t.len() - bs > u.len() {
            assert(spec_is_ascii_ws(c.skip(bs)[t.len() - bs - 1]));
            assert(c.skip(bs)[t.len() - bs - 1] == c[t.len() - 1]);
            assert(t.len() > 0 && !spec_is_ascii_ws(t.last()));
            assert(t.last() == c[t.len() - 1]);
            assert(false);
        }
    }
    assert(u.len() <= t.len() - bs) by {
        if u.len() > t.len() - bs {
            assert(spec_is_ascii_ws(c[bs + u.len() - 1]));
            assert(u.len() > 0 && !spec_is_ascii_ws(u.last()));
            assert(u.last() == c.skip(bs)[u.len() - 1]);
            assert(c.skip(bs)[u.len() - 1] == c[bs + u.len() - 1]);
            assert(false);
        }
    }
}

fn is_ascii_ws_byte(b: u8) -> (r: bool)
    ensures
        r == spec_is_ascii_ws(b),
{
    b == 0x20 || b == 0x09 || b == 0x0a || b == 0x0c || b == 0x0d
}

fn trim_ascii_end_len(c: &[u8]) -> (r: usize)
    ensures
        r <= c@.len(),
        r == spec_trim_ascii_end(c@).len(),
        spec_trim_ascii_end(c@) == c@.take(r as int),
{
    proof {
        lemma_trim_end_len(c@);
        assert(c@.take(c@.len() as int) =~= c@);
    }
    let mut j: usize = c.len();
    loop
        invariant
            j <= c@.len(),
            spec_trim_ascii_end(c@) == spec_trim_ascii_end(c@.take(j as int)),
        decreases j,
    {
        if j > 0 && is_ascii_ws_byte(c[j - 1]) {
            proof {
                assert(c@.take(j as int).drop_last() =~= c@.take(j - 1));
            }
            j = j - 1;
        } else {
            proof {
                if j > 0 {
                    assert(c@.take(j as int).last() == c@[j - 1]);
                }
                assert(spec_trim_ascii_end(c@.take(j as int)) == c@.take(j as int));
            }
            return j;
        }
    }
}

#[verifier::rlimit(60)]
fn is_separator(c: &[u8]) -> (r: bool)
    ensures
        r == spec_is_separator(c@),
{
    let ghost tv = spec_trim_ascii_end(c@);
    let t = trim_ascii_end_len(c);
    if t < 10 {
        return false;
    }
    let first = c[0];
    proof {
        assert(tv[0] == c@[0]);
    }
    let l = crate::unicode::utf8_len(first);
    if t % l != 0 {
        proof {
            assert((tv.len() as int) % (l as int) != 0);
        }
        return false;
    }
    let mut i: usize = 0;
    while i < t
        invariant
            i <= t,
            10 <= t <= c@.len(),
            tv == spec_trim_ascii_end(c@),
            t == tv.len(),
            tv == c@.take(t as int),
            1 <= l <= 4,
            l as int == crate::unicode::spec_utf8_len(tv[0]),
            forall|j: int| 0 <= j < i ==> #[trigger] tv[j] == tv[j % (l as int)],
        decreases t - i,
    {
        if c[i] != c[i % l] {
            proof {
                assert(tv[i as int] != tv[(i as int) % (l as int)]);
                assert(!(forall|j: int|
                    0 <= j < tv.len() ==> #[trigger] tv[j] == tv[j % (l as int)]));
                assert(!spec_is_separator(c@));
            }
            return false;
        }
        i = i + 1;
    }
    if first < 0x80 {
        !((48 <= first && first <= 57) || (65 <= first && first <= 90) || (97 <= first && first
            <= 122))
    } else {
        proof {
            assert forall|j: int| 0 <= j < l implies #[trigger] tv[j] == c@[j] by {}
            assert(crate::unicode::spec_decode_scalar(tv, l as int)
                == crate::unicode::spec_decode_scalar(c@, l as int));
        }
        let alnum = crate::unicode::first_char_alphanumeric(c, l);
        proof {
            assert(crate::unicode::spec_first_char_alphanumeric(tv, l as int)
                == crate::unicode::spec_first_char_alphanumeric(c@, l as int));
        }
        !alnum
    }
}

/// Rewrites a line comment's content in place: inserts the space after
/// the slashes where one is owed and trims trailing ASCII whitespace.
pub fn format_line_comment(tok: &mut Token)
    requires
        old(tok).wf(),
    ensures
        final(tok).wf(),
        final(tok).spec_type() == old(tok).spec_type(),
        final(tok).spec_ws() == old(tok).spec_ws(),
        final(tok).spec_content() == spec_format_line_comment(old(tok).spec_content()),
{
    let ghost c = tok.spec_content();
    let n = tok.get_content().len();
    if !(n >= 2 && tok.get_content()[0] == 47 && tok.get_content()[1] == 47) {
        return ;
    }
    let bs: usize = if n >= 3 && tok.get_content()[2] == 47 {
        3
    } else {
        2
    };
    let content = tok.get_content();
    let body = vstd::slice::slice_subrange(content, bs, n);
    let insert = body.len() > 0 && !is_ascii_ws_byte(body[0]) && !is_separator(body);
    let mut base: Vec<u8> = Vec::new();
    if insert {
        let mut prefix = vstd::slice::slice_to_vec(vstd::slice::slice_subrange(content, 0, bs));
        base.append(&mut prefix);
        base.push(32);
        let mut tail = vstd::slice::slice_to_vec(body);
        base.append(&mut tail);
        proof {
            assert(base@ =~= c.take(bs as int) + seq![32u8] + c.skip(bs as int));
        }
    } else {
        let mut whole = vstd::slice::slice_to_vec(content);
        base.append(&mut whole);
        proof {
            assert(base@ =~= c);
        }
    }
    let ghost base0 = base@;
    let keep = trim_ascii_end_len(base.as_slice());
    base.truncate(keep);
    proof {
        assert(base@ == base0.take(keep as int));
        assert(base@ == spec_trim_ascii_end(base0));
        assert(base@ =~= spec_format_line_comment(c));
    }
    tok.set_content(base);
}


// The directive-header state machine. States: 0 before the header, 1 after a
// switch's `+`/`-`, 2 after a switch's digit, 3 after a switch's comma, 4
// after a word's first letter, 5 inside a word.
/// The length of the directive header from position `i`, given the scanner
/// state and whether a switch was recognised; negative when the header is
/// invalid and the directive must be left untouched.
pub open spec fn spec_dir_scan(s: Seq<u8>, i: int, state: int, is_switch: bool) -> int
    decreases s.len() - i
        when 0 <= i <= s.len()
{
    if i >= s.len() {
        i
    } else {
        let b = s[i];
        if (state == 0 || state == 3) && ((65 <= b && b <= 90) || (97 <= b && b <= 122)) {
            spec_dir_scan(s, i + 1, 4, is_switch)
        } else if state == 4 && (b == 43 || b == 45) {
            spec_dir_scan(s, i + 1, 1, true)
        } else if (state == 1 || state == 2) && b == 44 {
            spec_dir_scan(s, i + 1, 3, is_switch)
        } else if (state == 4 || state == 2) && (48 <= b && b <= 57) {
            spec_dir_scan(s, i + 1, 2, true)
        } else if (state == 4 || state == 5) && (spec_is_alnum(b) || b == 95) && !is_switch {
            spec_dir_scan(s, i + 1, 5, is_switch)
        } else if state == 3 || state == 4 {
            -1
        } else {
            i
        }
    }
}

/// Where a directive's body begins: after `{$` or `(*$`; negative for any
/// other content.
pub open spec fn spec_directive_prefix_len(c: Seq<u8>) -> int {
    if c.len() >= 2 && c[0] == 123 && c[1] == 36 {
        2
    } else if c.len() >= 3 && c[0] == 40 && c[1] == 42 && c[2] == 36 {
        3
    } else {
        -1
    }
}

/// What a directive's content becomes: its header word or switch block
/// upper-cased in place, or the content unchanged when no valid header is
/// found.
pub open spec fn spec_format_directive(c: Seq<u8>) -> Seq<u8> {
    let p = spec_directive_prefix_len(c);
    if p < 0 {
        c
    } else {
        let stripped = c.skip(p);
        let hl = spec_dir_scan(stripped, 0, 0, false);
        if hl < 0 {
            c
        } else {
            c.take(p) + spec_upper_bytes(stripped.take(hl)) + stripped.skip(hl)
        }
    }
}

proof fn lemma_dir_scan_bounds(s: Seq<u8>, i: int, state: int, is_switch: bool)
    requires
        0 <= i <= s.len(),
    ensures
        spec_dir_scan(s, i, state, is_switch) == -1 || i <= spec_dir_scan(s, i, state, is_switch)
            <= s.len(),
    decreases s.len() - i,
{
    if i < s.len() {
        let b = s[i];
        if (state == 0 || state == 3) && ((65 <= b && b <= 90) || (97 <= b && b <= 122)) {
            lemma_dir_scan_bounds(s, i + 1, 4, is_switch);
        } else if state == 4 && (b == 43 || b == 45) {
            lemma_dir_scan_bounds(s, i + 1, 1, true);
        } else if (state == 1 || state == 2) && b == 44 {
            lemma_dir_scan_bounds(s, i + 1, 3, is_switch);
        } else if (state == 4 || state == 2) && (48 <= b && b <= 57) {
            lemma_dir_scan_bounds(s, i + 1, 2, true);
        } else if (state == 4 || state == 5) && (spec_is_alnum(b) || b == 95) && !is_switch {
            lemma_dir_scan_bounds(s, i + 1, 5, is_switch);
        }
    }
}

/// Upper-casing the scanned prefix does not change what the scanner accepts:
/// the byte classes it inspects are case-insensitive.
proof fn lemma_dir_scan_upper_stable(s: Seq<u8>, t: Seq<u8>, i: int, state: int, is_switch: bool)
    requires
        0 <= i <= s.len(),
        s.len() == t.len(),
        forall|j: int| 0 <= j < s.len() ==> t[j] == spec_upper_byte(#[trigger] s[j]) || t[j] == s[j],
    ensures
        spec_dir_scan(t, i, state, is_switch) == spec_dir_scan(s, i, state, is_switch),
    decreases s.len() - i,
{
    if i < s.len() {
        let b = s[i];
        if (state == 0 || state == 3) && ((65 <= b && b <= 90) || (97 <= b && b <= 122)) {
            lemma_dir_scan_upper_stable(s, t, i + 1, 4, is_switch);
        } else if state == 4 && (b == 43 || b == 45) {
            lemma_dir_scan_upper_stable(s, t, i + 1, 1, true);
        } else if (state == 1 || state == 2) && b == 44 {
            lemma_dir_scan_upper_stable(s, t, i + 1, 3, is_switch);
        } else if (state == 4 || state == 2) && (48 <= b && b <= 57) {
            lemma_dir_scan_upper_stable(s, t, i + 1, 2, true);
        } else if (state == 4 || state == 5) && (spec_is_alnum(b) || b == 95) && !is_switch {
            lemma_dir_scan_upper_stable(s, t, i + 1, 5, is_switch);
        }
    }
}

/// The directive-casing law: after the pass, a directive's header holds no
/// lower-case ASCII letter, and running the pass again changes nothing.
pub proof fn lemma_directive_casing_law(c: Seq<u8>)
    ensures
        spec_format_directive(spec_format_directive(c)) == spec_format_directive(c),
        ({
            let p = spec_directive_prefix_len(c);
            let r = spec_format_directive(c);
            p >= 0 && spec_dir_scan(c.skip(p), 0, 0, false) >= 0 ==> forall|j: int|
                p <= j < p + spec_dir_scan(c.skip(p), 0, 0, false) ==> !spec_is_lower(
                    #[trigger] r[j],
                )
        }),
{
    let p = spec_directive_prefix_len(c);
    if p >= 0 {
        let stripped = c.skip(p);
        lemma_dir_scan_bounds(stripped, 0, 0, false);
        let hl = spec_dir_scan(stripped, 0, 0, false);
        if hl >= 0 {
            let r = c.take(p) + spec_upper_bytes(stripped.take(hl)) + stripped.skip(hl);
            assert(r.len() == c.len());
            assert(spec_format_directive(c) == r);
            assert forall|j: int| p <= j < p + hl implies !spec_is_lower(#[trigger] r[j]) by {
                assert(r[j] == spec_upper_bytes(stripped.take(hl))[j - p]);
                assert(spec_upper_bytes(stripped.take(hl))[j - p] == spec_upper_byte(
                    stripped.take(hl)[j - p],
                ));
            }
            // a second pass scans the same header and upper-casing is
            // idempotent
            assert(spec_directive_prefix_len(r) == p) by {
                assert(r[0] == c[0]);
                assert(r[1] == c[1]);
                if p == 3 {
                    assert(r[2] == c[2]);
                }
            }
            let rs = r.skip(p);
            assert(rs.len() == stripped.len());
            assert forall|j: int| 0 <= j < rs.len() implies rs[j] == spec_upper_byte(
                stripped[j],
            ) || rs[j] == stripped[j] by {
                if j < hl {
                    assert(rs[j] == spec_upper_bytes(stripped.take(hl))[j]);
                } else {
                    assert(rs[j] == stripped.skip(hl)[j - hl]);
                }
            }
            lemma_dir_scan_upper_stable(stripped, rs, 0, 0, false);
            assert(spec_dir_scan(rs, 0, 0, false) == hl);
            let r2 = r.take(p) + spec_upper_bytes(rs.take(hl)) + rs.skip(hl);
            assert(spec_format_directive(r) == r2);
            assert(r2 =~= r) by {
                assert forall|j: int| 0 <= j < r.len() implies r2[j] == r[j] by {
                    if j < p {
                        assert(r2[j] == r.take(p)[j]);
                        assert(r.take(p)[j] == r[j]);
                    } else if j < p + hl {
                        assert(r2[j] == spec_upper_bytes(rs.take(hl))[j - p]);
                        assert(rs.take(hl)[j - p] == rs[j - p]);
                        assert(rs[j - p] == r[j]);
                        assert(r[j] == spec_upper_byte(stripped[j - p]));
                        assert(spec_upper_byte(spec_upper_byte(stripped[j - p])) == spec_upper_byte(
                            stripped[j - p],
                        ));
                    } else {
                        assert(r2[j] == rs.skip(hl)[j - p - hl]);
                        assert(rs.skip(hl)[j - p - hl] == rs[j - p]);
                        assert(rs[j - p] == r[j]);
                    }
                }
            }
        }
    }
}

fn upper_bytes(w: &[u8]) -> (r: Vec<u8>)
    ensures
        r@ == spec_upper_bytes(w@),
{
    let mut out: Vec<u8> = Vec::new();
    let mut i: usize = 0;
    while i < w.len()
        invariant
            i <= w@.len(),
            out@.len() == i,
            forall|j: int| 0 <= j < i ==> out@[j] == spec_upper_byte(w@[j]),
        decreases w@.len() - i,
    {
        let b = w[i];
        if 97 <= b && b <= 122 {
            out.push(b - 32);
        } else {
            out.push(b);
        }
        i = i + 1;
    }
    proof {
        assert(out@ =~= spec_upper_bytes(w@));
    }
    out
}

/// Rewrites a directive's content in place: the header word or switch
/// block after `{$` or `(*$` is upper-cased; an invalid header leaves the
/// content untouched.
pub fn format_compiler_directive(tok: &mut Token)
    requires
        old(tok).wf(),
    ensures
        final(tok).wf(),
        final(tok).spec_type() == old(tok).spec_type(),
        final(tok).spec_ws() == old(tok).spec_ws(),
        final(tok).spec_content() == spec_format_directive(old(tok).spec_content()),
{
    let ghost c = tok.spec_content();
    let content = tok.get_content();
    let n = content.len();
    let p: usize = if n >= 2 && content[0] == 123 && content[1] == 36 {
        2
    } else if n >= 3 && content[0] == 40 && content[1] == 42 && content[2] == 36 {
        3
    } else {
        return ;
    };
    let stripped = vstd::slice::slice_subrange(content, p, n);
    proof {
        assert(stripped@ == c.skip(p as int));
        lemma_dir_scan_bounds(stripped@, 0, 0, false);
    }
    let scan = dir_scan(stripped);
    let hl: usize = match scan {
        Some(hl) => hl,
        None => {
            proof {
                assert(spec_format_directive(c) == c);
            }
            return ;
        },
    };
    let header = vstd::slice::slice_subrange(stripped, 0, hl);
    let upper = upper_bytes(header);
    let mut out: Vec<u8> = Vec::new();
    let mut pre = vstd::slice::slice_to_vec(vstd::slice::slice_subrange(content, 0, p));
    out.append(&mut pre);
    let mut up = upper;
    out.append(&mut up);
    let mut rest = vstd::slice::slice_to_vec(vstd::slice::slice_subrange(stripped, hl, stripped.len()));
    out.append(&mut rest);
    proof {
        assert(header@ == stripped@.take(hl as int));
        assert(out@ =~= c.take(p as int) + spec_upper_bytes(c.skip(p as int).take(hl as int))
            + c.skip(p as int).skip(hl as int));
        assert(out@ =~= spec_format_directive(c));
    }
    tok.set_content(out);
}

/// Runs the directive-header state machine: the header length, or `None`
/// when the header is invalid.
fn dir_scan(stripped: &[u8]) -> (r: Option<usize>)
    ensures
        match r {
            Some(hl) => hl as int == spec_dir_scan(stripped@, 0, 0, false) && hl <= stripped@.len(),
            None => spec_dir_scan(stripped@, 0, 0, false) == -1,
        },
{
    let mut i: usize = 0;
    let mut state: u8 = 0;
    let mut is_switch = false;
    loop
        invariant
            0 <= i <= stripped@.len(),
            state <= 5,
            spec_dir_scan(stripped@, 0, 0, false) == spec_dir_scan(
                stripped@,
                i as int,
                state as int,
                is_switch,
            ),
        decreases stripped@.len() - i,
    {
        if i >= stripped.len() {
            return Some(i);
        }
        let b = stripped[i];
        if (state == 0 || state == 3) && ((65 <= b && b <= 90) || (97 <= b && b <= 122)) {
            state = 4;
        } else if state == 4 && (b == 43 || b == 45) {
            state = 1;
            is_switch = true;
        } else if (state == 1 || state == 2) && b == 44 {
            state = 3;
        } else if (state == 4 || state == 2) && (48 <= b && b <= 57) {
            state = 2;
            is_switch = true;
        } else if (state == 4 || state == 5) && ((48 <= b && b <= 57) || (65 <= b && b <= 90) || (97
            <= b && b <= 122) || b == 95) && !is_switch {
            state = 5;
        } else if state == 3 || state == 4 {
            // invalid or ambiguous header: the directive is left untouched
            return None;
        } else {
            return Some(i);
        }
        i = i + 1;
    }
}

impl CommentFormatter {
    /// Applies the comment and directive normalisation to every token:
    /// line comments through the comment-prefix rewrite, compiler and
    /// conditional directives through the header-casing rewrite; everything
    /// else, and every frozen token, stays as it was.
    pub fn format(&self, formatted_tokens: &mut FormattedTokens<'_>, _input: &Vec<LogicalLine>)
        requires
            old(formatted_tokens).wf(),
        ensures
            final(formatted_tokens).wf(),
            final(formatted_tokens).spec_tokens().len() == old(formatted_tokens).spec_tokens().len(),
            forall|i: int|
                0 <= i < old(formatted_tokens).spec_tokens().len() ==> {
                    let o = old(formatted_tokens).spec_tokens()[i];
                    let nw = #[trigger] final(formatted_tokens).spec_tokens()[i];
                    &&& nw.1 == o.1
                    &&& nw.0.spec_type() == o.0.spec_type()
                    &&& nw.0.spec_ws() == o.0.spec_ws()
                    &&& if o.1.spec_is_ignored() {
                        nw.0 == o.0
                    } else {
                        match o.0.spec_type() {
                            TokenType::Comment(CommentKind::InlineLine) => nw.0.spec_content()
                                == spec_format_line_comment(o.0.spec_content()),
                            TokenType::Comment(CommentKind::IndividualLine) => nw.0.spec_content()
                                == spec_format_line_comment(o.0.spec_content()),
                            TokenType::CompilerDirective => nw.0.spec_content()
                                == spec_format_directive(o.0.spec_content()),
                            TokenType::ConditionalDirective(_) => nw.0.spec_content()
                                == spec_format_directive(o.0.spec_content()),
                            _ => nw.0 == o.0,
                        }
                    }
                },
    {
        let ghost orig = formatted_tokens.spec_tokens();
        let n = formatted_tokens.len();
        let mut i: usize = 0;
        while i < n
            invariant
                n == orig.len(),
                i <= n,
                formatted_tokens.wf(),
                formatted_tokens.spec_tokens().len() == orig.len(),
                forall|j: int|
                    i <= j < orig.len() ==> #[trigger] formatted_tokens.spec_tokens()[j] == orig[j],
                forall|j: int|
                    0 <= j < i ==> {
                        let o = orig[j];
                        let nw = #[trigger] formatted_tokens.spec_tokens()[j];
                        &&& nw.1 == o.1
                        &&& nw.0.spec_type() == o.0.spec_type()
                        &&& nw.0.spec_ws() == o.0.spec_ws()
                        &&& if o.1.spec_is_ignored() {
                            nw.0 == o.0
                        } else {
                            match o.0.spec_type() {
                                TokenType::Comment(CommentKind::InlineLine) => nw.0.spec_content()
                                    == spec_format_line_comment(o.0.spec_content()),
                                TokenType::Comment(CommentKind::IndividualLine) => nw.0.spec_content()
                                    == spec_format_line_comment(o.0.spec_content()),
                                TokenType::CompilerDirective => nw.0.spec_content()
                                    == spec_format_directive(o.0.spec_content()),
                                TokenType::ConditionalDirective(_) => nw.0.spec_content()
                                    == spec_format_directive(o.0.spec_content()),
                                _ => nw.0 == o.0,
                            }
                        }
                    },
            decreases n - i,
        {
            let pair = formatted_tokens.get_token_mut(i).unwrap();
            if !pair.1.is_ignored() {
                match pair.0.get_token_type() {
                    TokenType::CompilerDirective => format_compiler_directive(&mut pair.0),
                    TokenType::ConditionalDirective(_) => format_compiler_directive(&mut pair.0),
                    TokenType::Comment(CommentKind::InlineLine) => format_line_comment(&mut pair.0),
                    TokenType::Comment(CommentKind::IndividualLine) => format_line_comment(
                        &mut pair.0,
                    ),
                    _ => {},
                }
            }
            i = i + 1;
        }
    }
}

/// The rewrite leaves no trailing ASCII whitespace, so a second application
/// changes nothing.
proof fn lemma_comment_prefix_idempotence_support(c: Seq<u8>)
    ensures
        spec_starts_line_comment(c) ==> spec_trim_ascii_end(spec_format_line_comment(c))
            == spec_format_line_comment(c),
{
    if spec_starts_line_comment(c) {
        let bs = spec_body_start(c);
        let body = c.skip(bs);
        if body.len() > 0 && !spec_is_ascii_ws(body[0]) && !spec_is_separator(body) {
            lemma_trim_end_idempotent(c.take(bs) + seq![32u8] + body);
        } else {
            lemma_trim_end_idempotent(c);
        }
    }
}

} // verus!
