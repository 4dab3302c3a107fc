//! From source text to statements: tokens, symbol numbers for names,
//! lines, and the statement of each line.
use vstd::prelude::*;
use crate::assembler::assembler::{stmts_view, AsmError};
use crate::assembler::ir::{Label, Stmt, StmtView};
use crate::assembler::lexer::{
    lemma_run_end, lex_from, name_pred, run_end, scan, scan_number, string_pred, Token,
};
use crate::assembler::parser::{p_line, parse_line};

verus! {

/// The spans of a token, if it has one, lie in the source.
pub open spec fn span_ok(s: Seq<u8>, t: Token) -> bool {
    match t {
        Token::Name(a, b) => a <= b <= s.len(),
        Token::Str(a, b) => a <= b <= s.len(),
        _ => true,
    }
}

proof fn lemma_scan_span(s: Seq<u8>, i: int)
    requires
        0 <= i < s.len(),
        s.len() <= usize::MAX,
    ensures
        scan(s, i) matches Some((t, _)) ==> span_ok(s, t),
{
    lemma_run_end(s, i, name_pred());
    if i + 1 <= s.len() {
        lemma_run_end(s, i + 1, string_pred());
    }
}

/// Every token the lexer produces has its spans in the source.
pub proof fn lemma_lex_spans(s: Seq<u8>, i: int)
    requires
        0 <= i,
        s.len() <= usize::MAX,
    ensures
        lex_from(s, i) is Ok ==> forall|k: int|
            0 <= k < lex_from(s, i)->Ok_0.len() ==> span_ok(s, #[trigger] lex_from(s, i)->Ok_0[k]),
    decreases s.len() - i,
{
    if i < s.len() {
        if crate::assembler::lexer::is_blank(s[i]) {
            lemma_lex_spans(s, i + 1);
        } else if s[i] == 59 {
            lemma_run_end(s, i + 1, crate::assembler::lexer::comment_pred());
            lemma_lex_spans(s, run_end(s, i + 1, crate::assembler::lexer::comment_pred()));
        } else {
            lemma_scan_span(s, i);
            match scan(s, i) {
                Some((t, j)) => if i < j <= s.len() {
                    lemma_lex_spans(s, j);
                    match lex_from(s, j) {
                        Ok(rest) => {
                            let q = seq![t] + rest;
                            assert forall|k: int| 0 <= k < q.len() implies span_ok(s, #[trigger] q[k]) by {
                                if k > 0 {
                                    assert(q[k] == rest[k - 1]);
                                }
                            }
                        },
                        Err(_) => {},
                    }
                },
                None => {},
            }
        }
    }
}

proof fn lemma_lexed_spans(s: Seq<u8>, raw: Seq<Token>)
    requires
        s.len() <= usize::MAX,
        lex_from(s, 0) == Ok::<Seq<Token>, usize>(raw),
    ensures
        forall|k: int| 0 <= k < raw.len() ==> span_ok(s, #[trigger] raw[k]),
{
    lemma_lex_spans(s, 0);
    assert(lex_from(s, 0) is Ok);
    assert(lex_from(s, 0)->Ok_0 == raw);
    assert forall|k: int| 0 <= k < raw.len() implies span_ok(s, #[trigger] raw[k]) by {
        assert(span_ok(s, lex_from(s, 0)->Ok_0[k]));
    }
}

/// `t` is the tokens `raw` with every name replaced by a symbol number
/// whose text in `names` is that of the name; no text occurs twice.
pub open spec fn interned(s: Seq<u8>, raw: Seq<Token>, t: Seq<Token>, names: Seq<Seq<u8>>) -> bool {
    &&& t.len() == raw.len()
    &&& forall|k: int|
        0 <= k < raw.len() ==> match #[trigger] raw[k] {
            Token::Name(a, b) => t[k] matches Token::Ident(id) && id < names.len() && names[id as int]
                == s.subrange(a as int, b as int),
            _ => t[k] == raw[k],
        }
    &&& forall|i: int, j: int| 0 <= i < j < names.len() ==> names[i] != names[j]
}

/// The texts of a table of names.
pub open spec fn names_view(v: Seq<Vec<u8>>) -> Seq<Seq<u8>> {
    v.map_values(|x: Vec<u8>| x@)
}

/// Whether `x` holds the bytes `a..b` of `s`.
fn same_text(x: &Vec<u8>, s: &[u8], a: usize, b: usize) -> (r: bool)
    requires
        a <= b <= s@.len(),
    ensures
        r == (x@ == s@.subrange(a as int, b as int)),
{
    if x.len() != b - a {
        return false;
    }
    let mut k: usize = 0;
    while k < x.len()
        invariant
            a <= b <= s@.len(),
            x@.len() == b - a,
            k <= x@.len(),
            forall|j: int| 0 <= j < k ==> x@[j] == s@[a + j],
        decreases x@.len() - k,
    {
        if x[k] != s[a + k] {
            assert(x@[k as int] != s@.subrange(a as int, b as int)[k as int]);
            return false;
        }
        k = k + 1;
    }
    assert(x@ =~= s@.subrange(a as int, b as int));
    true
}

fn find_name(names: &Vec<Vec<u8>>, s: &[u8], a: usize, b: usize) -> (r: Option<usize>)
    requires
        a <= b <= s@.len(),
    ensures
        r matches Some(id) ==> id < names@.len() && names_view(names@)[id as int] == s@.subrange(
            a as int,
            b as int,
        ),
        r is None ==> forall|i: int|
            0 <= i < names@.len() ==> names_view(names@)[i] != s@.subrange(a as int, b as int),
{
    let mut i: usize = 0;
    while i < names.len()
        invariant
            a <= b <= s@.len(),
            i <= names@.len(),
            forall|j: int|
                0 <= j < i ==> names_view(names@)[j] != s@.subrange(a as int, b as int),
        decreases names@.len() - i,
    {
        if same_text(&names[i], s, a, b) {
            return Some(i);
        }
        i = i + 1;
    }
    None
}

/// Replaces every name by its symbol number, collecting the texts.
pub fn intern(s: &[u8], raw: &Vec<Token>) -> (r: (Vec<Token>, Vec<Vec<u8>>))
    requires
        forall|k: int| 0 <= k < raw@.len() ==> span_ok(s@, #[trigger] raw@[k]),
    ensures
        interned(s@, raw@, r.0@, names_view(r.1@)),
{
    let mut out: Vec<Token> = Vec::new();
    let mut names: Vec<Vec<u8>> = Vec::new();
    let mut k: usize = 0;
    while k < raw.len()
        invariant
            k <= raw@.len(),
            forall|j: int| 0 <= j < raw@.len() ==> span_ok(s@, #[trigger] raw@[j]),
            interned(s@, raw@.take(k as int), out@, names_view(names@)),
        decreases raw@.len() - k,
    {
        let t = raw[k];
        let ghost pre_names = names_view(names@);
        let u = match t {
            Token::Name(a, b) => {
                assert(span_ok(s@, raw@[k as int]));
                match find_name(&names, s, a, b) {
                    Some(id) => Token::Ident(id),
                    None => {
                        let id = names.len();
                        let text = crate::assembler::front::copy_span(s, a, b);
                        names.push(text);
                        proof {
                            assert(names_view(names@) =~= pre_names.push(text@));
                        }
                        Token::Ident(id)
                    },
                }
            },
            _ => t,
        };
        proof {
            assert(raw@.take(k + 1) =~= raw@.take(k as int).push(t));
            let nv = names_view(names@);
            assert forall|j: int| 0 <= j < k + 1 implies match #[trigger] raw@.take(k + 1)[j] {
                Token::Name(a, b) => out@.push(u)[j] matches Token::Ident(id) && id < nv.len()
                    && nv[id as int] == s@.subrange(a as int, b as int),
                _ => out@.push(u)[j] == raw@.take(k + 1)[j],
            } by {
                if j < k {
                    assert(raw@.take(k + 1)[j] == raw@.take(k as int)[j]);
                    match raw@.take(k as int)[j] {
                        Token::Name(a, b) => {
                            let id = out@[j]->Ident_0;
                            assert(pre_names[id as int] == nv[id as int]);
                        },
                        _ => {},
                    }
                }
            }
        }
        out.push(u);
        k = k + 1;
    }
    proof {
        assert(raw@.take(k as int) =~= raw@);
    }
    (out, names)
}

/// Copies the bytes `a..b` of `s`.
pub fn copy_span(s: &[u8], a: usize, b: usize) -> (r: Vec<u8>)
    requires
        a <= b <= s@.len(),
    ensures
        r@ == s@.subrange(a as int, b as int),
{
    let mut out: Vec<u8> = Vec::new();
    let mut k = a;
    while k < b
        invariant
            a <= k <= b <= s@.len(),
            out@ == s@.subrange(a as int, k as int),
        decreases b - k,
    {
        out.push(s[k]);
        k = k + 1;
        assert(out@ =~= s@.subrange(a as int, k as int));
    }
    out
}

/// The lines of the tokens from `i` on, `cur` holding the tokens of the
/// current line so far; lines end at newline tokens.
pub open spec fn split_from(t: Seq<Token>, i: int, cur: Seq<Token>) -> Seq<Seq<Token>>
    decreases t.len() - i,
{
    if i < 0 || i >= t.len() {
        seq![cur]
    } else if t[i] == Token::Newline {
        seq![cur] + split_from(t, i + 1, Seq::empty())
    } else {
        split_from(t, i + 1, cur.push(t[i]))
    }
}

/// The tokens of each line.
pub fn split_lines(t: &Vec<Token>) -> (r: Vec<Vec<Token>>)
    ensures
        lines_view(r@) == split_from(t@, 0, Seq::empty()),
{
    let mut lines: Vec<Vec<Token>> = Vec::new();
    let mut cur: Vec<Token> = Vec::new();
    let mut i: usize = 0;
    proof {
        assert(Seq::<Seq<Token>>::empty() + split_from(t@, 0, Seq::empty()) =~= split_from(
            t@,
            0,
            Seq::empty(),
        ));
    }
    while i < t.len()
        invariant
            i <= t@.len(),
            split_from(t@, 0, Seq::empty()) == lines_view(lines@) + split_from(
                t@,
                i as int,
                cur@,
            ),
        decreases t@.len() - i,
    {
        if t[i] == Token::Newline {
            let done = cur;
            cur = Vec::new();
            proof {
                assert(lines_view(lines@.push(done)) =~= lines_view(lines@).push(done@));
                assert(lines_view(lines@) + (seq![done@] + split_from(
                    t@,
                    i + 1,
                    Seq::empty(),
                )) =~= lines_view(lines@).push(done@) + split_from(
                    t@,
                    i + 1,
                    Seq::empty(),
                ));
                assert(cur@ =~= Seq::<Token>::empty());
            }
            lines.push(done);
        } else {
            cur.push(t[i]);
        }
        i = i + 1;
    }
    proof {
        assert(lines_view(lines@.push(cur)) =~= lines_view(lines@).push(cur@));
        assert(lines_view(lines@) + seq![cur@] =~= lines_view(lines@).push(cur@));
    }
    lines.push(cur);
    lines
}

/// The tokens of each line.
pub open spec fn lines_view(v: Seq<Vec<Token>>) -> Seq<Seq<Token>> {
    v.map_values(|x: Vec<Token>| x@)
}

/// Whether a statement has neither label nor command.
pub open spec fn empty_stmt(s: StmtView) -> bool {
    s.label_def is Absent && s.cmd is None
}

/// The statements of the lines from `k` on, empty ones left out; the
/// number (from 1) of the first line that is no statement.
pub open spec fn s_parse_lines(s: Seq<u8>, lines: Seq<Seq<Token>>, k: int) -> Result<
    Seq<StmtView>,
    AsmError,
>
    decreases lines.len() - k,
{
    if k < 0 || k >= lines.len() {
        Ok(Seq::empty())
    } else {
        match p_line(s, lines[k]) {
            None => Err(AsmError::Syntax((k + 1) as usize)),
            Some(st) => match s_parse_lines(s, lines, k + 1) {
                Err(e) => Err(e),
                Ok(rest) => Ok(
                    if empty_stmt(st) {
                        rest
                    } else {
                        seq![st] + rest
                    },
                ),
            },
        }
    }
}

/// The number (from 1) of the line holding byte `p` of the source.
pub open spec fn line_of(s: Seq<u8>, p: int) -> int
    decreases p,
{
    if p <= 0 || p > s.len() {
        1
    } else {
        line_of(s, p - 1) + if s[p - 1] == 10 {
            1int
        } else {
            0
        }
    }
}

/// The statements of source text `s`, given its tokens `t` with symbol
/// numbers.
pub open spec fn s_parse(s: Seq<u8>, t: Seq<Token>) -> Result<Seq<StmtView>, AsmError> {
    s_parse_lines(s, split_from(t, 0, Seq::empty()), 0)
}

/// Parses the lines into statements; see [`s_parse_lines`].
fn parse_lines(s: &[u8], lines: &Vec<Vec<Token>>) -> (r: Result<Vec<Stmt>, AsmError>)
    ensures
        match s_parse_lines(s@, lines_view(lines@), 0) {
            Ok(ss) => r matches Ok(v) && stmts_view(v@) == ss,
            Err(e) => r matches Err(x) && x == e,
        },
{
    let ghost ls = lines_view(lines@);
    let mut out: Vec<Stmt> = Vec::new();
    let mut k: usize = 0;
    proof {
        match s_parse_lines(s@, ls, 0) {
            Ok(q) => {
                assert(Seq::<StmtView>::empty() + q =~= q);
            },
            Err(_) => {},
        }
    }
    while k < lines.len()
        invariant
            k <= lines@.len(),
            ls == lines_view(lines@),
            ls.len() == lines@.len(),
            match s_parse_lines(s@, ls, 0) {
                Ok(all) => match s_parse_lines(s@, ls, k as int) {
                    Ok(rest) => all == stmts_view(out@) + rest,
                    Err(_) => false,
                },
                Err(e) => s_parse_lines(s@, ls, k as int) == Err::<Seq<StmtView>, AsmError>(e),
            },
        decreases lines@.len() - k,
    {
        assert(ls[k as int] == lines@[k as int]@);
        match parse_line(s, &lines[k]) {
            None => {
                return Err(AsmError::Syntax(k + 1));
            },
            Some(st) => {
                proof {
                    match s_parse_lines(s@, ls, k + 1) {
                        Ok(rest) => {
                            let ov = stmts_view(out@);
                            assert(stmts_view(out@.push(st)) =~= ov.push(st.view()));
                            assert(ov + (seq![st.view()] + rest) =~= ov.push(st.view()) + rest);
                        },
                        Err(_) => {},
                    }
                }
                if !st.is_empty() {
                    out.push(st);
                }
            },
        }
        k = k + 1;
    }
    proof {
        assert(stmts_view(out@) + Seq::<StmtView>::empty() =~= stmts_view(out@));
    }
    Ok(out)
}

/// The number of the line holding byte `p`.
fn line_at(s: &[u8], p: usize) -> (r: usize)
    requires
        p < s@.len(),
    ensures
        r == line_of(s@, p as int),
{
    let mut line: usize = 1;
    let mut k: usize = 0;
    let n = s.len();
    while k < p
        invariant
            k <= p < s@.len(),
            s@.len() == n,
            line == line_of(s@, k as int),
            line <= k + 1,
        decreases p - k,
    {
        if s[k] == 10 {
            line = line + 1;
        }
        k = k + 1;
    }
    line
}

/// Source text to statements, with the table of symbol names: the line of
/// the first character where no token starts, or of the first line that is
/// no statement.
pub fn parse_program(s: &[u8]) -> (r: Result<(Vec<Stmt>, Vec<Vec<u8>>), AsmError>)
    ensures
        lex_from(s@, 0) matches Err(p) ==> r == Err::<(Vec<Stmt>, Vec<Vec<u8>>), AsmError>(
            AsmError::Syntax(line_of(s@, p as int) as usize),
        ),
        r is Ok ==> lex_from(s@, 0) is Ok && exists|t: Seq<Token>|
            #[trigger] interned(s@, lex_from(s@, 0)->Ok_0, t, names_view(r->Ok_0.1@)) && s_parse(
                s@,
                t,
            ) == Ok::<Seq<StmtView>, AsmError>(stmts_view(r->Ok_0.0@)),
        lex_from(s@, 0) is Ok && r is Err ==> exists|t: Seq<Token>, names: Seq<Seq<u8>>|
            #[trigger] interned(s@, lex_from(s@, 0)->Ok_0, t, names) && s_parse(s@, t) == Err::<
                Seq<StmtView>,
                AsmError,
            >(r->Err_0),
{
    let n = s.len();
    let raw = match crate::assembler::lexer::lex(s) {
        Ok(v) => v,
        Err(p) => {
            proof {
                crate::assembler::lexer::lemma_lex_from_err_bound(s@, 0);
            }
            return Err(AsmError::Syntax(line_at(s, p)));
        },
    };
    proof {
        lemma_lexed_spans(s@, raw@);
        assert(lex_from(s@, 0)->Ok_0 == raw@);
    }
    let (t, names) = intern(s, &raw);
    let lines = split_lines(&t);
    let ss = parse_lines(s, &lines);
    proof {
        assert(lines_view(lines@) == split_from(t@, 0, Seq::empty()));
    }
    match ss {
        Ok(v) => {
            proof {
                assert(interned(s@, lex_from(s@, 0)->Ok_0, t@, names_view(names@)));
                assert(s_parse(s@, t@) == Ok::<Seq<StmtView>, AsmError>(
                    stmts_view(v@),
                ));
                assert(lex_from(s@, 0) == Ok::<Seq<Token>, usize>(raw@));
            }
            let res: Result<(Vec<Stmt>, Vec<Vec<u8>>), AsmError> = Ok((v, names));
            proof {
                let w = t@;
                assert(interned(s@, lex_from(s@, 0)->Ok_0, w, names_view(res->Ok_0.1@)));
                assert(s_parse(s@, w) == Ok::<Seq<StmtView>, AsmError>(stmts_view(res->Ok_0.0@)));
            }
            res
        },
        Err(e) => {
            proof {
                assert(interned(s@, lex_from(s@, 0)->Ok_0, t@, names_view(names@)));
                assert(s_parse(s@, t@) == Err::<Seq<StmtView>, AsmError>(e));
                assert(exists|tt: Seq<Token>, nn: Seq<Seq<u8>>|
                    #[trigger] interned(s@, raw@, tt, nn) && s_parse(s@, tt) == Err::<
                        Seq<StmtView>,
                        AsmError,
                    >(e));
            }
            Err(e)
        },
    }
}

} // verus!
