//! Recursive-descent parsing of a token sequence into one expression.

use vstd::prelude::*;

use crate::lang::{
    eval_error, exprs_view, is_tok, lemma_exprs_view_index, lemma_exprs_view_len, strings_view,
    syntax_error, CrispError, CrispExpr, ErrV, ExprV, Primitive,
};
use crate::num::{float_bits_of, single_from_str};

verus! {

broadcast use lemma_exprs_view_len, lemma_exprs_view_index;

/// The token that opens a list.
pub open spec fn tok_open() -> Seq<char> {
    seq!['(']
}

/// The token that closes a list.
pub open spec fn tok_close() -> Seq<char> {
    seq![')']
}

/// Whether an expression is a number.
pub open spec fn is_number(e: ExprV) -> bool {
    e matches ExprV::Primitive(Primitive::Number(_))
}

/// The expression that the atom token `t` denotes: the binary32 number it
/// spells if it spells one, else one of the boolean literals, else a symbol.
pub open spec fn atom_spec(t: Seq<char>) -> ExprV {
    match float_bits_of(t) {
        Some(bits) => ExprV::Primitive(Primitive::Number(bits)),
        None => if t == seq!['t', 'r', 'u', 'e'] {
            ExprV::Primitive(Primitive::Bool(true))
        } else if t == seq!['f', 'a', 'l', 's', 'e'] {
            ExprV::Primitive(Primitive::Bool(false))
        } else {
            ExprV::Symbol(t)
        },
    }
}

/// What parsing one expression out of `toks` at position `pos` yields: the
/// expression and the position just past it, or the first error. An absent
/// token is `MissingParen`, a stray `)` is a syntax error, `(` opens a list,
/// and any other token is an atom.
pub open spec fn parse_spec(toks: Seq<Seq<char>>, pos: int) -> Result<(ExprV, int), ErrV>
    decreases toks.len() - pos, 0int,
{
    if pos < 0 || pos >= toks.len() {
        Err(ErrV::MissingParen(1, 0))
    } else if toks[pos] == tok_open() {
        match parse_list_spec(toks, pos + 1) {
            Err(e) => Err(e),
            Ok((items, next)) => Ok((ExprV::List(items), next)),
        }
    } else if toks[pos] == tok_close() {
        Err(ErrV::SyntaxError("Unexpected ')'"@))
    } else {
        Ok((atom_spec(toks[pos]), pos + 1))
    }
}

/// What parsing list elements out of `toks` at position `pos` yields: the
/// elements up to the matching `)` and the position just past it, or the
/// first error; running out of tokens before the `)` is a syntax error.
pub open spec fn parse_list_spec(toks: Seq<Seq<char>>, pos: int) -> Result<
    (Seq<ExprV>, int),
    ErrV,
>
    decreases toks.len() - pos, 1int,
{
    if pos < 0 || pos >= toks.len() {
        Err(ErrV::SyntaxError("Expected a ')'"@))
    } else if toks[pos] == tok_close() {
        Ok((Seq::empty(), pos + 1))
    } else {
        match parse_spec(toks, pos) {
            Err(e) => Err(e),
            Ok((first, next)) => if pos < next <= toks.len() {
                match parse_list_spec(toks, next) {
                    Err(e) => Err(e),
                    Ok((rest, after)) => Ok((seq![first] + rest, after)),
                }
            } else {
                // Parsing always advances (see `lemma_parse_spec_advances`),
                // so this branch is never the result.
                Err(ErrV::SyntaxError("Expected a ')'"@))
            },
        }
    }
}

/// Parsing one expression consumes at least one token and never reads past
/// the end of the token sequence.
pub proof fn lemma_parse_spec_advances(toks: Seq<Seq<char>>, pos: int)
    ensures
        parse_spec(toks, pos) matches Ok((e, next)) ==> pos < next <= toks.len(),
    decreases toks.len() - pos, 0int,
{
    if 0 <= pos < toks.len() && toks[pos] == tok_open() {
        lemma_parse_list_spec_advances(toks, pos + 1);
    }
}

/// Parsing the elements of a list consumes at least the closing `)` and
/// never reads past the end of the token sequence.
pub proof fn lemma_parse_list_spec_advances(toks: Seq<Seq<char>>, pos: int)
    ensures
        parse_list_spec(toks, pos) matches Ok((items, next)) ==> pos < next <= toks.len(),
    decreases toks.len() - pos, 1int,
{
    if 0 <= pos < toks.len() && toks[pos] != tok_close() {
        lemma_parse_spec_advances(toks, pos);
        match parse_spec(toks, pos) {
            Ok((first, next)) => {
                if pos < next <= toks.len() {
                    lemma_parse_list_spec_advances(toks, next);
                }
            },
            Err(_) => {},
        }
    }
}

/// The numbers that a sequence of expressions holds: the bit patterns in
/// order if every expression is a number, else an error at the first
/// expression that is not.
pub open spec fn parse_floats_spec(es: Seq<ExprV>) -> Result<Seq<u32>, ErrV>
    decreases es.len(),
{
    if es.len() == 0 {
        Ok(Seq::empty())
    } else {
        match es[0] {
            ExprV::Primitive(Primitive::Number(bits)) => match parse_floats_spec(
                es.drop_first(),
            ) {
                Ok(rest) => Ok(seq![bits] + rest),
                Err(e) => Err(e),
            },
            _ => Err(ErrV::EvalError("Expected a number"@)),
        }
    }
}

/// The parameter names that a sequence of expressions holds: the symbol
/// names in order if every expression is a symbol, else an error.
pub open spec fn param_list_spec(es: Seq<ExprV>) -> Result<Seq<Seq<char>>, ErrV>
    decreases es.len(),
{
    if es.len() == 0 {
        Ok(Seq::empty())
    } else {
        match es[0] {
            ExprV::Symbol(name) => match param_list_spec(es.drop_first()) {
                Ok(rest) => Ok(seq![name] + rest),
                Err(e) => Err(e),
            },
            _ => Err(ErrV::EvalError("Param list must contain only symbols"@)),
        }
    }
}

/// Every numeric-literal token parses to the number it spells: parsing a
/// one-token sequence whose token spells a binary32 value yields that number
/// with no tokens remaining.
pub proof fn lemma_numeric_token_parses(t: Seq<char>, bits: u32)
    requires
        float_bits_of(t) == Some(bits),
        t != tok_open(),
        t != tok_close(),
    ensures
        parse_spec(seq![t], 0) == Ok::<(ExprV, int), ErrV>(
            (ExprV::Primitive(Primitive::Number(bits)), 1),
        ),
{
}

/// The views of a numbers result.
pub open spec fn floats_result_view(r: Result<Vec<u32>, CrispError>) -> Result<Seq<u32>, ErrV> {
    match r {
        Ok(v) => Ok(v@),
        Err(err) => Err(err@),
    }
}

/// The views of a parameter-names result.
pub open spec fn params_result_view(r: Result<Vec<String>, CrispError>) -> Result<
    Seq<Seq<char>>,
    ErrV,
> {
    match r {
        Ok(v) => Ok(strings_view(v@)),
        Err(err) => Err(err@),
    }
}

/// The views of a parse result.
pub open spec fn parse_result_view(r: Result<(CrispExpr, usize), CrispError>) -> Result<
    (ExprV, int),
    ErrV,
> {
    match r {
        Ok((e, next)) => Ok((e@, next as int)),
        Err(err) => Err(err@),
    }
}

/// The views of a list-elements parse result.
pub open spec fn list_result_view(r: Result<(Vec<CrispExpr>, usize), CrispError>) -> Result<
    (Seq<ExprV>, int),
    ErrV,
> {
    match r {
        Ok((items, next)) => Ok((exprs_view(items@), next as int)),
        Err(err) => Err(err@),
    }
}

/// Reads the number out of one expression.
fn parse_float(expr: &CrispExpr) -> (r: Result<u32, CrispError>)
    ensures
        match r {
            Ok(bits) => expr@ == ExprV::Primitive(Primitive::Number(bits)),
            Err(e) => !is_number(expr@) && e@ == ErrV::EvalError("Expected a number"@),
        },
{
    match expr {
        CrispExpr::Primitive(Primitive::Number(x)) => Ok(*x),
        _ => Err(eval_error("Expected a number")),
    }
}

/// Reads the name out of one symbol expression.
fn parse_symbol(token: &CrispExpr) -> (r: Result<String, CrispError>)
    ensures
        match r {
            Ok(name) => token@ == ExprV::Symbol(name@),
            Err(e) => !(token@ is Symbol) && e@ == ErrV::EvalError("Expected a symbol"@),
        },
{
    match token {
        CrispExpr::Symbol(name) => Ok(name.clone()),
        _ => Err(eval_error("Expected a symbol")),
    }
}

/// Reads the numbers out of a sequence of expressions, in order; fails at
/// the first expression that is not a number.
pub fn parse_floats(args: &Vec<CrispExpr>) -> (r: Result<Vec<u32>, CrispError>)
    ensures
        floats_result_view(r) == parse_floats_spec(exprs_view(args@)),
{
    let ghost es = exprs_view(args@);
    let mut out: Vec<u32> = Vec::new();
    let mut i: usize = 0;
    proof {
        assert(es.skip(0) =~= es);
    }
    while i < args.len()
        invariant
            i <= args.len(),
            es == exprs_view(args@),
            args@.len() == es.len(),
            parse_floats_spec(es) == (match parse_floats_spec(es.skip(i as int)) {
                Ok(rest) => Ok::<Seq<u32>, ErrV>(out@ + rest),
                Err(e) => Err::<Seq<u32>, ErrV>(e),
            }),
        decreases args.len() - i,
    {
        let ghost tail = es.skip(i as int);
        proof {
            assert(tail[0] == es[i as int]);
            assert(tail.drop_first() =~= es.skip(i as int + 1));
        }
        match parse_float(&args[i]) {
            Ok(bits) => {
                let ghost prev = out@;
                out.push(bits);
                i = i + 1;
                proof {
                    if parse_floats_spec(es.skip(i as int)) is Ok {
                        let rest = parse_floats_spec(es.skip(i as int))->Ok_0;
                        assert(prev + (seq![bits] + rest) =~= out@ + rest);
                    }
                }
            },
            Err(e) => {
                return Err(e);
            },
        }
    }
    proof {
        assert(es.skip(i as int) =~= Seq::<ExprV>::empty());
        assert(out@ + Seq::<u32>::empty() =~= out@);
    }
    Ok(out)
}

/// Reads the parameter names out of a sequence of expressions, in order;
/// fails if any expression is not a bare symbol.
pub fn parse_param_list(params: &Vec<CrispExpr>) -> (r: Result<Vec<String>, CrispError>)
    ensures
        params_result_view(r) == param_list_spec(exprs_view(params@)),
{
    let ghost es = exprs_view(params@);
    let mut out: Vec<String> = Vec::new();
    let mut i: usize = 0;
    proof {
        assert(es.skip(0) =~= es);
        assert(strings_view(out@) =~= Seq::<Seq<char>>::empty());
    }
    while i < params.len()
        invariant
            i <= params.len(),
            es == exprs_view(params@),
            params@.len() == es.len(),
            param_list_spec(es) == (match param_list_spec(es.skip(i as int)) {
                Ok(rest) => Ok::<Seq<Seq<char>>, ErrV>(strings_view(out@) + rest),
                Err(e) => Err::<Seq<Seq<char>>, ErrV>(e),
            }),
        decreases params.len() - i,
    {
        let ghost tail = es.skip(i as int);
        proof {
            assert(tail[0] == es[i as int]);
            assert(tail.drop_first() =~= es.skip(i as int + 1));
        }
        match parse_symbol(&params[i]) {
            Ok(name) => {
                let ghost prev = strings_view(out@);
                let ghost name_view = name@;
                out.push(name);
                i = i + 1;
                proof {
                    assert(strings_view(out@) =~= prev.push(name_view));
                    if param_list_spec(es.skip(i as int)) is Ok {
                        let rest = param_list_spec(es.skip(i as int))->Ok_0;
                        assert(prev + (seq![name_view] + rest) =~= strings_view(out@) + rest);
                    }
                }
            },
            Err(_) => {
                return Err(eval_error("Param list must contain only symbols"));
            },
        }
    }
    proof {
        assert(es.skip(i as int) =~= Seq::<ExprV>::empty());
        assert(strings_view(out@) + Seq::<Seq<char>>::empty() =~= strings_view(out@));
    }
    Ok(out)
}

/// Turns one atom token into the expression it denotes.
fn parse_atom(token: &String) -> (r: CrispExpr)
    ensures
        r@ == atom_spec(token@),
{
    match single_from_str(token.as_str()) {
        Some(bits) => CrispExpr::Primitive(Primitive::Number(bits)),
        None => {
            proof {
                reveal_strlit("true");
                reveal_strlit("false");
                assert("true"@ =~= seq!['t', 'r', 'u', 'e']);
                assert("false"@ =~= seq!['f', 'a', 'l', 's', 'e']);
            }
            if is_tok(token, "true") {
                CrispExpr::Primitive(Primitive::Bool(true))
            } else if is_tok(token, "false") {
                CrispExpr::Primitive(Primitive::Bool(false))
            } else {
                CrispExpr::Symbol(token.clone())
            }
        },
    }
}

/// Parses exactly one expression out of `tokens`, starting at `start`, and
/// returns it with the position just past it; tokens after that position are
/// not read.
pub fn parse(tokens: &Vec<String>, start: usize) -> (r: Result<(CrispExpr, usize), CrispError>)
    ensures
        parse_result_view(r) == parse_spec(strings_view(tokens@), start as int),
    decreases tokens@.len() - start, 0int,
{
    let ghost toks = strings_view(tokens@);
    if start >= tokens.len() {
        return Err(CrispError::MissingParen(1, 0));
    }
    let token = &tokens[start];
    proof {
        assert(toks[start as int] == token@);
        reveal_strlit("(");
        reveal_strlit(")");
        assert("("@ =~= tok_open());
        assert(")"@ =~= tok_close());
    }
    if is_tok(token, "(") {
        match parse_list(tokens, start + 1) {
            Err(e) => Err(e),
            Ok((items, next)) => Ok((CrispExpr::List(items), next)),
        }
    } else if is_tok(token, ")") {
        Err(syntax_error("Unexpected ')'"))
    } else {
        Ok((parse_atom(token), start + 1))
    }
}

/// Parses list elements up to and through the matching `)`.
fn parse_list(tokens: &Vec<String>, start: usize) -> (r: Result<
    (Vec<CrispExpr>, usize),
    CrispError,
>)
    ensures
        list_result_view(r) == parse_list_spec(strings_view(tokens@), start as int),
    decreases tokens@.len() - start, 1int,
{
    let ghost toks = strings_view(tokens@);
    if start >= tokens.len() {
        return Err(syntax_error("Expected a ')'"));
    }
    proof {
        assert(toks[start as int] == tokens@[start as int]@);
        reveal_strlit(")");
        assert(")"@ =~= tok_close());
    }
    if is_tok(&tokens[start], ")") {
        let items: Vec<CrispExpr> = Vec::new();
        proof {
            assert(exprs_view(items@) =~= Seq::<ExprV>::empty());
        }
        return Ok((items, start + 1));
    }
    match parse(tokens, start) {
        Err(e) => Err(e),
        Ok((first, next)) => {
            proof {
                lemma_parse_spec_advances(toks, start as int);
            }
            match parse_list(tokens, next) {
                Err(e) => Err(e),
                Ok((rest, after)) => {
                    let ghost rest_view = exprs_view(rest@);
                    let mut items = rest;
                    items.insert(0, first);
                    proof {
                        assert(items@.drop_first() =~= rest@);
                        assert(exprs_view(items@) == seq![items@[0]@] + exprs_view(
                            items@.drop_first(),
                        ));
                        assert(exprs_view(items@) =~= seq![first@] + rest_view);
                    }
                    Ok((items, after))
                },
            }
        },
    }
}

} // verus!
