pub mod eval;
pub mod lang;
pub mod num;
pub mod parse;

use vstd::prelude::*;

use crate::eval::{eval, eval_spec, CrispEnv, EnvV, DEFAULT_DEPTH};
use crate::lang::{expr_result_view, strings_view, CrispResult, ErrV, ExprV};
use crate::parse::{parse, parse_spec};

verus! {

/// Whether `c` has the Unicode `White_Space` property: these characters
/// separate tokens and are otherwise dropped.
pub open spec fn is_ws_char(c: char) -> bool {
    let u = c as u32;
    (0x9 <= u && u <= 0xD) || u == 0x20 || u == 0x85 || u == 0xA0 || u == 0x1680 || (0x2000 <= u
        && u <= 0x200A) || u == 0x2028 || u == 0x2029 || u == 0x202F || u == 0x205F || u == 0x3000
}

fn is_ws(c: char) -> (r: bool)
    ensures
        r == is_ws_char(c),
{
    let u = c as u32;
    (0x9 <= u && u <= 0xD) || u == 0x20 || u == 0x85 || u == 0xA0 || u == 0x1680 || (0x2000 <= u
        && u <= 0x200A) || u == 0x2028 || u == 0x2029 || u == 0x202F || u == 0x205F || u == 0x3000
}

/// Whether `c` is a parenthesis, which always forms a token of its own.
pub open spec fn is_paren_char(c: char) -> bool {
    c == '(' || c == ')'
}

/// The token that a partial atom yields when it ends: nothing if no atom was
/// in progress, else the atom's characters.
pub open spec fn flushed(cur: Seq<char>) -> Seq<Seq<char>> {
    if cur.len() == 0 {
        Seq::empty()
    } else {
        seq![cur]
    }
}

/// The tokens of `s`, given that the characters of `cur` (a partial atom)
/// were already read: each parenthesis is a token of its own, maximal runs of
/// other non-whitespace characters are atom tokens, and whitespace only
/// separates.
pub open spec fn lex_rec(s: Seq<char>, cur: Seq<char>) -> Seq<Seq<char>>
    decreases s.len(),
{
    if s.len() == 0 {
        flushed(cur)
    } else if is_ws_char(s[0]) {
        flushed(cur) + lex_rec(s.drop_first(), Seq::empty())
    } else if is_paren_char(s[0]) {
        flushed(cur) + seq![seq![s[0]]] + lex_rec(s.drop_first(), Seq::empty())
    } else {
        lex_rec(s.drop_first(), cur.push(s[0]))
    }
}

/// The token sequence of the source text `s`.
pub open spec fn lex_spec(s: Seq<char>) -> Seq<Seq<char>> {
    lex_rec(s, Seq::empty())
}

/// Splits raw source text into tokens: every parenthesis stands alone, and
/// the rest of the text is split on whitespace runs.
pub fn lexer(s: &str) -> (r: Vec<String>)
    ensures
        strings_view(r@) == lex_spec(s@),
{
    let n: usize = s.unicode_len();
    let mut toks: Vec<String> = Vec::new();
    let mut i: usize = 0;
    // The atom in progress is s[start..i]; no atom is in progress when start == i.
    let mut start: usize = 0;
    proof {
        assert(s@.skip(0) =~= s@);
        assert(s@.subrange(0, 0) =~= Seq::<char>::empty());
        assert(strings_view(toks@) =~= Seq::<Seq<char>>::empty());
        assert(strings_view(toks@) + lex_rec(s@, Seq::empty()) =~= lex_rec(s@, Seq::empty()));
    }
    while i < n
        invariant
            n == s@.len(),
            start <= i <= n,
            strings_view(toks@) + lex_rec(s@.skip(i as int), s@.subrange(start as int, i as int))
                =~= lex_spec(s@),
        decreases n - i,
    {
        let c = s.get_char(i);
        let ghost rest = s@.skip(i as int);
        let ghost cur = s@.subrange(start as int, i as int);
        proof {
            assert(rest[0] == s@[i as int]);
            assert(rest.drop_first() =~= s@.skip(i as int + 1));
        }
        if is_ws(c) {
            if start < i {
                let tok = s.substring_char(start, i).to_owned();
                toks.push(tok);
            }
            i = i + 1;
            start = i;
            proof {
                assert(s@.subrange(start as int, i as int) =~= Seq::<char>::empty());
                assert(strings_view(toks@) + lex_rec(s@.skip(i as int), Seq::empty()) =~= lex_spec(
                    s@,
                ));
            }
        } else if c == '(' || c == ')' {
            if start < i {
                let tok = s.substring_char(start, i).to_owned();
                toks.push(tok);
            }
            let ptok = s.substring_char(i, i + 1).to_owned();
            proof {
                assert(ptok@ =~= seq![s@[i as int]]);
            }
            toks.push(ptok);
            i = i + 1;
            start = i;
            proof {
                assert(s@.subrange(start as int, i as int) =~= Seq::<char>::empty());
                assert(strings_view(toks@) + lex_rec(s@.skip(i as int), Seq::empty()) =~= lex_spec(
                    s@,
                ));
            }
        } else {
            i = i + 1;
            proof {
                assert(s@.subrange(start as int, i as int) =~= cur.push(s@[i - 1]));
                assert(strings_view(toks@) + lex_rec(
                    s@.skip(i as int),
                    s@.subrange(start as int, i as int),
                ) =~= lex_spec(s@));
            }
        }
    }
    if start < n {
        let tok = s.substring_char(start, n).to_owned();
        toks.push(tok);
    }
    proof {
        assert(s@.skip(n as int) =~= Seq::<char>::empty());
        assert(strings_view(toks@) =~= lex_spec(s@));
    }
    toks
}

/// What running a whole program text yields: the text is tokenized, exactly
/// one expression is parsed (tokens after it are ignored), and that
/// expression is evaluated against the given environment.
pub open spec fn run_spec(s: Seq<char>, env: EnvV) -> (Result<ExprV, ErrV>, EnvV) {
    match parse_spec(lex_spec(s), 0) {
        Err(e) => (Err(e), env),
        Ok((e0, _)) => eval_spec(e0, env, DEFAULT_DEPTH as nat),
    }
}

/// Lexes `prog`, parses its first expression and evaluates it against
/// `env`, returning the resulting value or the first error.
pub fn run_program(prog: &str, env: &mut CrispEnv) -> (r: CrispResult)
    requires
        old(env).wf(),
    ensures
        final(env).wf(),
        expr_result_view(r) == run_spec(prog@, old(env)@).0,
        final(env)@ == run_spec(prog@, old(env)@).1,
{
    let tokens = lexer(prog);
    match parse(&tokens, 0) {
        Err(e) => Err(e),
        Ok((expr, _rest)) => eval(&expr, env),
    }
}

} // verus!
