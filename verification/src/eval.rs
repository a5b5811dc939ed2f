//! The evaluator: environments, native functions, special forms and
//! function application.

use vstd::prelude::*;

use vstd::string::StringExecFns;

use crate::lang::{
    eval_error, expr_result_view, exprs_view, is_tok, lemma_exprs_view_index,
    lemma_exprs_view_len, strings_view, Builtin, CrispError, CrispExpr, CrispFn, CrispLambda,
    CrispResult, ErrV, ExprV, LambdaV, Primitive,
};
use crate::num::{add_bits, gt_bits, mul_bits, sub_bits};
use crate::num::{single_add, single_gt, single_mul, single_sub};
use crate::parse::{param_list_spec, parse_floats, parse_floats_spec, parse_param_list};

verus! {

broadcast use lemma_exprs_view_len, lemma_exprs_view_index;

/// The mathematical shape of an environment: one name-to-value mapping per
/// scope, innermost scope last.
pub type EnvV = Seq<Map<Seq<char>, ExprV>>;

/// The mapping that an association list denotes; a later entry for the same
/// name hides an earlier one.
pub open spec fn scope_view(s: Seq<(String, CrispExpr)>) -> Map<Seq<char>, ExprV>
    decreases s.len(),
{
    if s.len() == 0 {
        Map::empty()
    } else {
        scope_view(s.drop_last()).insert(s.last().0@, s.last().1@)
    }
}

/// The value bound to `name`: the innermost scope that binds it wins, and a
/// name bound nowhere has no value.
pub open spec fn lookup_spec(env: EnvV, name: Seq<char>) -> Option<ExprV>
    decreases env.len(),
{
    if env.len() == 0 {
        None
    } else if env.last().contains_key(name) {
        Some(env.last()[name])
    } else {
        lookup_spec(env.drop_last(), name)
    }
}

/// The views of an optional expression.
pub open spec fn opt_expr_view(r: Option<CrispExpr>) -> Option<ExprV> {
    match r {
        Some(e) => Some(e@),
        None => None,
    }
}

/// A chain of lexical scopes mapping symbol names to values. The root scope
/// is created once and pre-populated with the native functions; a new
/// innermost scope lives exactly for one lambda invocation.
pub struct CrispEnv {
    scopes: Vec<Vec<(String, CrispExpr)>>,
}

impl View for CrispEnv {
    type V = EnvV;

    closed spec fn view(&self) -> EnvV {
        Seq::new(self.scopes@.len(), |i: int| scope_view(self.scopes@[i]@))
    }
}

/// Looks `name` up in one scope, latest binding first.
fn scope_get(scope: &Vec<(String, CrispExpr)>, name: &str) -> (r: Option<CrispExpr>)
    ensures
        match r {
            Some(v) => scope_view(scope@).contains_key(name@) && scope_view(scope@)[name@] == v@,
            None => !scope_view(scope@).contains_key(name@),
        },
{
    let ghost s = scope@;
    let mut ei: usize = scope.len();
    proof {
        assert(s.take(s.len() as int) =~= s);
    }
    while ei > 0
        invariant
            ei <= scope.len(),
            s == scope@,
            scope_view(s).contains_key(name@) == scope_view(s.take(ei as int)).contains_key(
                name@,
            ),
            scope_view(s).contains_key(name@) ==> scope_view(s.take(ei as int))[name@]
                == scope_view(s)[name@],
        decreases ei,
    {
        let ghost prefix = s.take(ei as int);
        proof {
            assert(prefix.drop_last() =~= s.take(ei as int - 1));
            assert(prefix.last() == s[ei as int - 1]);
        }
        let entry = &scope[ei - 1];
        if is_tok(&entry.0, name) {
            return Some(entry.1.clone());
        }
        ei = ei - 1;
    }
    proof {
        assert(s.take(0) =~= Seq::<(String, CrispExpr)>::empty());
    }
    None
}

impl CrispEnv {
    /// An environment always has at least its root scope.
    pub open spec fn wf(&self) -> bool {
        self@.len() >= 1
    }

    /// A fresh environment whose ancestors are the scopes of `parent` and
    /// whose own innermost scope is empty.
    pub fn from_parent(parent: &CrispEnv) -> (r: Self)
        ensures
            r.wf(),
            r@ =~= parent@.push(Map::<Seq<char>, ExprV>::empty()),
    {
        let mut scopes: Vec<Vec<(String, CrispExpr)>> = Vec::new();
        let mut i: usize = 0;
        while i < parent.scopes.len()
            invariant
                i <= parent.scopes.len(),
                scopes@.len() == i,
                forall|j: int|
                    0 <= j < i ==> scope_view(#[trigger] scopes@[j]@) == scope_view(
                        parent.scopes@[j]@,
                    ),
            decreases parent.scopes.len() - i,
        {
            scopes.push(clone_scope(&parent.scopes[i]));
            i = i + 1;
        }
        scopes.push(Vec::new());
        let r = CrispEnv { scopes };
        proof {
            assert(scope_view(Seq::<(String, CrispExpr)>::empty()) =~= Map::<
                Seq<char>,
                ExprV,
            >::empty());
        }
        r
    }

    /// The value bound to `name`, innermost scope first.
    pub fn get(&self, name: &str) -> (r: Option<CrispExpr>)
        ensures
            opt_expr_view(r) == lookup_spec(self@, name@),
    {
        let ghost env = self@;
        let mut si: usize = self.scopes.len();
        proof {
            assert(env.take(env.len() as int) =~= env);
        }
        while si > 0
            invariant
                si <= self.scopes.len(),
                env == self@,
                self@.len() == self.scopes@.len(),
                lookup_spec(env, name@) == lookup_spec(env.take(si as int), name@),
            decreases si,
        {
            let ghost prefix = env.take(si as int);
            proof {
                assert(prefix.drop_last() =~= env.take(si as int - 1));
                assert(prefix.last() == env[si as int - 1]);
            }
            match scope_get(&self.scopes[si - 1], name) {
                Some(v) => {
                    return Some(v);
                },
                None => {
                    si = si - 1;
                },
            }
        }
        proof {
            assert(env.take(0) =~= Seq::<Map<Seq<char>, ExprV>>::empty());
        }
        None
    }

    /// Binds `name` to `value` in the innermost scope, hiding any earlier
    /// binding of that name there.
    pub fn insert(&mut self, name: String, value: CrispExpr)
        requires
            old(self).wf(),
        ensures
            final(self).wf(),
            final(self)@ =~= old(self)@.update(
                old(self)@.len() - 1,
                old(self)@.last().insert(name@, value@),
            ),
    {
        let ghost old_env = self@;
        match self.scopes.pop() {
            Some(mut scope) => {
                let ghost old_scope = scope@;
                scope.push((name, value));
                proof {
                    assert(scope@.drop_last() =~= old_scope);
                }
                self.scopes.push(scope);
            },
            None => {
                proof {
                    assert(false);
                }
            },
        }
    }

    /// Whether the innermost scope itself binds `name`; ancestor scopes are
    /// not consulted.
    pub fn contains_current(&self, name: &str) -> (r: bool)
        requires
            self.wf(),
        ensures
            r == self@.last().contains_key(name@),
    {
        match scope_get(&self.scopes[self.scopes.len() - 1], name) {
            Some(_) => true,
            None => false,
        }
    }

    /// Opens a fresh innermost scope.
    pub(crate) fn push_scope(&mut self)
        ensures
            final(self)@ =~= old(self)@.push(Map::<Seq<char>, ExprV>::empty()),
    {
        self.scopes.push(Vec::new());
        proof {
            assert(scope_view(Seq::<(String, CrispExpr)>::empty()) =~= Map::<
                Seq<char>,
                ExprV,
            >::empty());
        }
    }

    /// Discards the innermost scope.
    pub(crate) fn pop_scope(&mut self)
        requires
            old(self)@.len() >= 1,
        ensures
            final(self)@ =~= old(self)@.drop_last(),
    {
        match self.scopes.pop() {
            Some(_) => {},
            None => {
                proof {
                    assert(false);
                }
            },
        }
    }
}

/// The bit pattern of binary32 `0.0`, the fold identity of `+`.
pub open spec fn zero_bits() -> u32 {
    0
}

/// The bit pattern of binary32 `1.0`, the fold identity of `*`.
pub open spec fn one_bits() -> u32 {
    0x3F80_0000
}

/// The left fold of binary32 addition over `nums`, starting from `0`.
pub open spec fn fold_add(nums: Seq<u32>) -> u32
    decreases nums.len(),
{
    if nums.len() == 0 {
        zero_bits()
    } else {
        add_bits(fold_add(nums.drop_last()), nums.last())
    }
}

/// The left fold of binary32 multiplication over `nums`, starting from `1`.
pub open spec fn fold_mul(nums: Seq<u32>) -> u32
    decreases nums.len(),
{
    if nums.len() == 0 {
        one_bits()
    } else {
        mul_bits(fold_mul(nums.drop_last()), nums.last())
    }
}

/// The left fold of binary32 subtraction of `rest` from `first`.
pub open spec fn fold_sub(first: u32, rest: Seq<u32>) -> u32
    decreases rest.len(),
{
    if rest.len() == 0 {
        first
    } else {
        sub_bits(fold_sub(first, rest.drop_last()), rest.last())
    }
}

/// What a native function returns on a sequence of evaluated arguments.
/// Every argument must be a number; `+` and `*` fold with their identities,
/// `-` needs at least one argument, and `>` compares exactly its first two
/// arguments.
pub open spec fn apply_builtin_spec(b: Builtin, args: Seq<ExprV>) -> Result<ExprV, ErrV> {
    match parse_floats_spec(args) {
        Err(e) => Err(e),
        Ok(nums) => match b {
            Builtin::Add => Ok(ExprV::Primitive(Primitive::Number(fold_add(nums)))),
            Builtin::Sub => if nums.len() == 0 {
                Err(ErrV::EvalError("- takes at least one argument"@))
            } else {
                Ok(ExprV::Primitive(Primitive::Number(fold_sub(nums[0], nums.drop_first()))))
            },
            Builtin::Mul => Ok(ExprV::Primitive(Primitive::Number(fold_mul(nums)))),
            Builtin::Gt => if nums.len() == 0 {
                Err(ErrV::EvalError("> takes at least one argument"@))
            } else if nums.len() == 1 {
                Err(ErrV::EvalError("Expected a second argument"@))
            } else {
                Ok(ExprV::Primitive(Primitive::Bool(gt_bits(nums[0], nums[1]))))
            },
        },
    }
}

impl CrispFn {
    /// Invokes this native function on already-evaluated arguments.
    pub fn call(&self, args: &Vec<CrispExpr>) -> (r: CrispResult)
        ensures
            expr_result_view(r) == apply_builtin_spec(self.0, exprs_view(args@)),
    {
        let floats = match parse_floats(args) {
            Ok(v) => v,
            Err(e) => {
                return Err(e);
            },
        };
        match self.0 {
            Builtin::Add => {
                let mut acc: u32 = 0;
                let mut i: usize = 0;
                proof {
                    assert(floats@.take(0) =~= Seq::<u32>::empty());
                }
                while i < floats.len()
                    invariant
                        i <= floats.len(),
                        acc == fold_add(floats@.take(i as int)),
                    decreases floats.len() - i,
                {
                    proof {
                        assert(floats@.take(i as int + 1).drop_last() =~= floats@.take(i as int));
                        assert(floats@.take(i as int + 1).last() == floats@[i as int]);
                    }
                    acc = single_add(acc, floats[i]);
                    i = i + 1;
                }
                proof {
                    assert(floats@.take(floats@.len() as int) =~= floats@);
                }
                Ok(CrispExpr::Primitive(Primitive::Number(acc)))
            },
            Builtin::Mul => {
                let mut acc: u32 = 0x3F80_0000;
                let mut i: usize = 0;
                proof {
                    assert(floats@.take(0) =~= Seq::<u32>::empty());
                }
                while i < floats.len()
                    invariant
                        i <= floats.len(),
                        acc == fold_mul(floats@.take(i as int)),
                    decreases floats.len() - i,
                {
                    proof {
                        assert(floats@.take(i as int + 1).drop_last() =~= floats@.take(i as int));
                        assert(floats@.take(i as int + 1).last() == floats@[i as int]);
                    }
                    acc = single_mul(acc, floats[i]);
                    i = i + 1;
                }
                proof {
                    assert(floats@.take(floats@.len() as int) =~= floats@);
                }
                Ok(CrispExpr::Primitive(Primitive::Number(acc)))
            },
            Builtin::Sub => {
                if floats.len() == 0 {
                    return Err(eval_error("- takes at least one argument"));
                }
                let first = floats[0];
                let mut acc: u32 = first;
                let mut i: usize = 1;
                proof {
                    assert(floats@.subrange(1, 1) =~= Seq::<u32>::empty());
                }
                while i < floats.len()
                    invariant
                        1 <= i <= floats.len(),
                        first == floats@[0],
                        acc == fold_sub(first, floats@.subrange(1, i as int)),
                    decreases floats.len() - i,
                {
                    proof {
                        assert(floats@.subrange(1, i as int + 1).drop_last() =~= floats@.subrange(
                            1,
                            i as int,
                        ));
                        assert(floats@.subrange(1, i as int + 1).last() == floats@[i as int]);
                    }
                    acc = single_sub(acc, floats[i]);
                    i = i + 1;
                }
                proof {
                    assert(floats@.subrange(1, floats@.len() as int) =~= floats@.drop_first());
                }
                Ok(CrispExpr::Primitive(Primitive::Number(acc)))
            },
            Builtin::Gt => {
                if floats.len() == 0 {
                    return Err(eval_error("> takes at least one argument"));
                }
                if floats.len() == 1 {
                    return Err(eval_error("Expected a second argument"));
                }
                Ok(CrispExpr::Primitive(Primitive::Bool(single_gt(floats[0], floats[1]))))
            },
        }
    }
}

/// The environment that every run starts from: one root scope holding the
/// native functions `+`, `-`, `*` and `>`.
pub open spec fn initial_env() -> EnvV {
    seq![
        Map::<Seq<char>, ExprV>::empty().insert("+"@, ExprV::Fn(CrispFn(Builtin::Add))).insert(
            "-"@,
            ExprV::Fn(CrispFn(Builtin::Sub)),
        ).insert("*"@, ExprV::Fn(CrispFn(Builtin::Mul))).insert(
            ">"@,
            ExprV::Fn(CrispFn(Builtin::Gt)),
        ),
    ]
}

impl Default for CrispEnv {
    /// Builds the root environment with the native functions bound.
    fn default() -> (r: Self)
        ensures
            r.wf(),
            r@ =~= initial_env(),
    {
        let mut scope: Vec<(String, CrispExpr)> = Vec::new();
        let ghost s0 = scope@;
        scope.push((String::from_str("+"), CrispExpr::Fn(CrispFn(Builtin::Add))));
        let ghost s1 = scope@;
        scope.push((String::from_str("-"), CrispExpr::Fn(CrispFn(Builtin::Sub))));
        let ghost s2 = scope@;
        scope.push((String::from_str("*"), CrispExpr::Fn(CrispFn(Builtin::Mul))));
        let ghost s3 = scope@;
        scope.push((String::from_str(">"), CrispExpr::Fn(CrispFn(Builtin::Gt))));
        let ghost s4 = scope@;
        let mut scopes: Vec<Vec<(String, CrispExpr)>> = Vec::new();
        scopes.push(scope);
        let r = CrispEnv { scopes };
        proof {
            assert(s0 =~= Seq::<(String, CrispExpr)>::empty());
            assert(s1.drop_last() =~= s0);
            assert(s2.drop_last() =~= s1);
            assert(s3.drop_last() =~= s2);
            assert(s4.drop_last() =~= s3);
            assert(scope_view(s0) =~= Map::<Seq<char>, ExprV>::empty());
            assert(scope_view(s1) == scope_view(s0).insert("+"@, ExprV::Fn(CrispFn(Builtin::Add))));
            assert(scope_view(s2) == scope_view(s1).insert("-"@, ExprV::Fn(CrispFn(Builtin::Sub))));
            assert(scope_view(s3) == scope_view(s2).insert("*"@, ExprV::Fn(CrispFn(Builtin::Mul))));
            assert(scope_view(s4) == scope_view(s3).insert(">"@, ExprV::Fn(CrispFn(Builtin::Gt))));
            assert(scope_view(s4) =~= initial_env()[0]);
        }
        r
    }
}

/// The binding that a parameter list and an argument list make: each name is
/// bound to the argument in its position, and a repeated name keeps the
/// argument of its last position.
pub open spec fn bind_params(params: Seq<Seq<char>>, vals: Seq<ExprV>) -> Map<Seq<char>, ExprV>
    recommends
        params.len() == vals.len(),
    decreases params.len(),
{
    if params.len() == 0 {
        Map::empty()
    } else {
        bind_params(params.drop_last(), vals.drop_last()).insert(params.last(), vals.last())
    }
}

/// What a lambda-defining form yields: a lambda value out of a parameter
/// list of bare symbols and one body expression, or the first error.
pub open spec fn eval_lambda_spec(args: Seq<ExprV>) -> Result<ExprV, ErrV> {
    if args.len() > 2 {
        Err(ErrV::EvalError("fn takes exactly 2 arguments"@))
    } else if args.len() == 0 {
        Err(ErrV::EvalError("Expected a param expression"@))
    } else {
        match args[0] {
            ExprV::List(items) => match param_list_spec(items) {
                Err(e) => Err(e),
                Ok(names) => if args.len() == 1 {
                    Err(ErrV::EvalError("Expected a body expression"@))
                } else {
                    Ok(ExprV::Lambda(LambdaV { params: names, body: Box::new(args[1]) }))
                },
            },
            _ => Err(ErrV::EvalError("Params should be a list"@)),
        }
    }
}

/// The error reported when evaluation nests deeper than the fuel allows.
pub open spec fn depth_error() -> ErrV {
    ErrV::EvalError("Recursion depth exceeded"@)
}

/// What evaluating `e` in `env` yields, with at most `fuel` levels of nested
/// evaluation: the resulting value or the first error, together with the
/// environment as the evaluation left it (bindings made before an error keep
/// their effect). Primitives are self-evaluating, symbols resolve innermost
/// scope first, and a non-empty list is a special form or an application.
pub open spec fn eval_spec(e: ExprV, env: EnvV, fuel: nat) -> (Result<ExprV, ErrV>, EnvV)
    decreases fuel, 3nat, 0nat,
{
    if fuel == 0 {
        (Err(depth_error()), env)
    } else {
        match e {
            ExprV::Symbol(name) => (
                match lookup_spec(env, name) {
                    Some(v) => Ok(v),
                    None => Err(ErrV::EvalError("Unknown symbol: "@ + name)),
                },
                env,
            ),
            ExprV::Primitive(p) => (Ok(ExprV::Primitive(p)), env),
            ExprV::List(items) => if items.len() == 0 {
                (Err(ErrV::EvalError("Can't eval an empty list."@)), env)
            } else {
                eval_form_spec(items[0], items.drop_first(), env, fuel)
            },
            _ => (Err(ErrV::EvalError("Can't eval a function value"@)), env),
        }
    }
}

/// What evaluating a non-empty list form yields: the head is checked against
/// the special-form names before being evaluated as a value; if it is none
/// of them (or a `quote` with nothing to quote), the head and then every
/// argument are evaluated, and the head's value is applied.
pub open spec fn eval_form_spec(first: ExprV, args: Seq<ExprV>, env: EnvV, fuel: nat) -> (
    Result<ExprV, ErrV>,
    EnvV,
)
    recommends
        fuel >= 1,
    decreases fuel, 2nat, 0nat,
{
    if fuel == 0 {
        (Err(depth_error()), env)
    } else if first matches ExprV::Symbol(name) && name == "begin"@ {
        eval_begin_spec(args, env, fuel)
    } else if first matches ExprV::Symbol(name) && name == "def"@ {
        eval_def_spec(args, env, fuel)
    } else if first matches ExprV::Symbol(name) && name == "fn"@ {
        (eval_lambda_spec(args), env)
    } else if first matches ExprV::Symbol(name) && name == "if"@ {
        eval_if_spec(args, env, fuel)
    } else if first matches ExprV::Symbol(name) && name == "quote"@ && args.len() >= 1 {
        (Ok(args[0]), env)
    } else {
        let (r1, env1) = eval_spec(first, env, (fuel - 1) as nat);
        match r1 {
            Err(e) => (Err(e), env1),
            Ok(fv) => {
                let (args_r, env2) = eval_seq_spec(args, env1, fuel);
                apply_spec(fv, args_r, env2, fuel)
            },
        }
    }
}

/// What evaluating a sequence of expressions left to right yields: their
/// values in order, or the first error, together with the environment after
/// the expressions that were evaluated.
pub open spec fn eval_seq_spec(es: Seq<ExprV>, env: EnvV, fuel: nat) -> (
    Result<Seq<ExprV>, ErrV>,
    EnvV,
)
    decreases fuel, 1nat, es.len(),
{
    if fuel == 0 {
        (Err(depth_error()), env)
    } else if es.len() == 0 {
        (Ok(Seq::empty()), env)
    } else {
        let (r0, env1) = eval_spec(es[0], env, (fuel - 1) as nat);
        match r0 {
            Err(e) => (Err(e), env1),
            Ok(v) => {
                let (rr, env2) = eval_seq_spec(es.drop_first(), env1, fuel);
                match rr {
                    Err(e) => (Err(e), env2),
                    Ok(rest) => (Ok(seq![v] + rest), env2),
                }
            },
        }
    }
}

/// What applying an evaluated head to the outcome of evaluating the
/// arguments yields: a native function validates and computes; a lambda
/// checks arity, binds its parameters in a fresh innermost scope over the
/// caller's environment, and evaluates its body there; anything else is not
/// callable, and an argument error is reported only if the head was
/// callable.
pub open spec fn apply_spec(
    fv: ExprV,
    args_r: Result<Seq<ExprV>, ErrV>,
    env: EnvV,
    fuel: nat,
) -> (Result<ExprV, ErrV>, EnvV)
    recommends
        fuel >= 1,
    decreases fuel, 0nat, 0nat,
{
    if fuel == 0 {
        (Err(depth_error()), env)
    } else {
    match fv {
        ExprV::Fn(f) => match args_r {
            Err(e) => (Err(e), env),
            Ok(vals) => (apply_builtin_spec(f.0, vals), env),
        },
        ExprV::Lambda(lam) => match args_r {
            Err(e) => (Err(e), env),
            Ok(vals) => if vals.len() != lam.params.len() {
                (Err(ErrV::EvalError("Wrong number of arguments were supplied"@)), env)
            } else {
                let inner = env.push(bind_params(lam.params, vals));
                let (r, env2) = eval_spec(*lam.body, inner, (fuel - 1) as nat);
                (r, env2.drop_last())
            },
        },
        _ => (Err(ErrV::EvalError("First form must be a function"@)), env),
    }
    }
}

/// What a `begin` form yields: each argument is evaluated in order against
/// the shared environment, stopping at the first error, and the last value
/// is the result.
pub open spec fn eval_begin_spec(args: Seq<ExprV>, env: EnvV, fuel: nat) -> (
    Result<ExprV, ErrV>,
    EnvV,
)
    decreases fuel, 1nat, args.len(),
{
    if fuel == 0 {
        (Err(depth_error()), env)
    } else if args.len() == 0 {
        (Err(ErrV::EvalError("begin takes at least one argument"@)), env)
    } else if args.len() == 1 {
        eval_spec(args[0], env, (fuel - 1) as nat)
    } else {
        let (r0, env1) = eval_spec(args[0], env, (fuel - 1) as nat);
        match r0 {
            Err(e) => (Err(e), env1),
            Ok(_) => eval_begin_spec(args.drop_first(), env1, fuel),
        }
    }
}

/// What an `if` form yields: the test must evaluate to a boolean (with no
/// truthiness coercion), and the branch it selects is evaluated; a missing
/// selected branch is an error.
pub open spec fn eval_if_spec(args: Seq<ExprV>, env: EnvV, fuel: nat) -> (
    Result<ExprV, ErrV>,
    EnvV,
)
    decreases fuel, 1nat, 0nat,
{
    if fuel == 0 {
        (Err(depth_error()), env)
    } else if args.len() > 3 {
        (Err(ErrV::EvalError("if takes exactly three arguments"@)), env)
    } else if args.len() == 0 {
        (Err(ErrV::EvalError("Expected an expression"@)), env)
    } else {
        let (tr, env1) = eval_spec(args[0], env, (fuel - 1) as nat);
        match tr {
            Ok(ExprV::Primitive(Primitive::Bool(b))) => {
                let idx: int = if b {
                    1
                } else {
                    2
                };
                if args.len() <= idx {
                    (Err(ErrV::EvalError("missing true or false clause"@)), env1)
                } else {
                    eval_spec(args[idx], env1, (fuel - 1) as nat)
                }
            },
            _ => (Err(ErrV::EvalError("Test form must evaluate to a boolean"@)), env1),
        }
    }
}

/// What a `def` form yields: the first argument must be a symbol that the
/// innermost scope does not bind yet; the second is evaluated and bound to
/// it there, and the symbol itself is the result.
pub open spec fn eval_def_spec(args: Seq<ExprV>, env: EnvV, fuel: nat) -> (
    Result<ExprV, ErrV>,
    EnvV,
)
    decreases fuel, 1nat, 0nat,
{
    if fuel == 0 {
        (Err(depth_error()), env)
    } else if args.len() > 2 {
        (Err(ErrV::EvalError("def takes exactly two arguments"@)), env)
    } else if args.len() == 0 {
        (Err(ErrV::EvalError("Expected a name"@)), env)
    } else {
        match args[0] {
            ExprV::Symbol(name) => if env.last().contains_key(name) {
                (
                    Err(
                        ErrV::EvalError(
                            "Variable with name '"@ + name + "' already exists"@,
                        ),
                    ),
                    env,
                )
            } else if args.len() == 1 {
                (Err(ErrV::EvalError("Expected a value"@)), env)
            } else {
                let (vr, env1) = eval_spec(args[1], env, (fuel - 1) as nat);
                match vr {
                    Err(e) => (Err(e), env1),
                    Ok(v) => (
                        Ok(ExprV::Symbol(name)),
                        env1.update(env1.len() - 1, env1.last().insert(name, v)),
                    ),
                }
            },
            _ => (Err(ErrV::EvalError("First argument must be a symbol"@)), env),
        }
    }
}

/// Evaluation keeps the number of scopes, and every scope but the innermost
/// one is left as it was: only the innermost scope can gain bindings, and
/// scopes opened for lambda bodies are discarded again.
pub proof fn lemma_eval_spec_frame(e: ExprV, env: EnvV, fuel: nat)
    requires
        env.len() >= 1,
    ensures
        eval_spec(e, env, fuel).1.len() == env.len(),
        forall|i: int| 0 <= i < env.len() - 1 ==> eval_spec(e, env, fuel).1[i] == env[i],
    decreases fuel, 3nat, 0nat,
{
    if fuel > 0 {
        match e {
            ExprV::List(items) => {
                if items.len() > 0 {
                    lemma_form_frame(items[0], items.drop_first(), env, fuel);
                }
            },
            _ => {},
        }
    }
}

proof fn lemma_form_frame(first: ExprV, args: Seq<ExprV>, env: EnvV, fuel: nat)
    requires
        env.len() >= 1,
    ensures
        eval_form_spec(first, args, env, fuel).1.len() == env.len(),
        forall|i: int|
            0 <= i < env.len() - 1 ==> eval_form_spec(first, args, env, fuel).1[i] == env[i],
    decreases fuel, 2nat, 0nat,
{
    if fuel == 0 {
    } else if first matches ExprV::Symbol(name) && name == "begin"@ {
        lemma_begin_frame(args, env, fuel);
    } else if first matches ExprV::Symbol(name) && name == "def"@ {
        lemma_def_frame(args, env, fuel);
    } else if first matches ExprV::Symbol(name) && name == "fn"@ {
    } else if first matches ExprV::Symbol(name) && name == "if"@ {
        lemma_if_frame(args, env, fuel);
    } else if first matches ExprV::Symbol(name) && name == "quote"@ && args.len() >= 1 {
    } else {
        lemma_eval_spec_frame(first, env, (fuel - 1) as nat);
        let (r1, env1) = eval_spec(first, env, (fuel - 1) as nat);
        match r1 {
            Err(_) => {},
            Ok(fv) => {
                lemma_seq_frame(args, env1, fuel);
                let (args_r, env2) = eval_seq_spec(args, env1, fuel);
                lemma_apply_frame(fv, args_r, env2, fuel);
            },
        }
    }
}

proof fn lemma_seq_frame(es: Seq<ExprV>, env: EnvV, fuel: nat)
    requires
        env.len() >= 1,
    ensures
        eval_seq_spec(es, env, fuel).1.len() == env.len(),
        forall|i: int| 0 <= i < env.len() - 1 ==> eval_seq_spec(es, env, fuel).1[i] == env[i],
    decreases fuel, 1nat, es.len(),
{
    if fuel > 0 && es.len() > 0 {
        lemma_eval_spec_frame(es[0], env, (fuel - 1) as nat);
        let (r0, env1) = eval_spec(es[0], env, (fuel - 1) as nat);
        match r0 {
            Err(_) => {},
            Ok(_) => {
                lemma_seq_frame(es.drop_first(), env1, fuel);
            },
        }
    }
}

proof fn lemma_apply_frame(fv: ExprV, args_r: Result<Seq<ExprV>, ErrV>, env: EnvV, fuel: nat)
    requires
        env.len() >= 1,
    ensures
        apply_spec(fv, args_r, env, fuel).1.len() == env.len(),
        forall|i: int|
            0 <= i < env.len() - 1 ==> apply_spec(fv, args_r, env, fuel).1[i] == env[i],
    decreases fuel, 0nat, 0nat,
{
    if fuel > 0 {
        match fv {
            ExprV::Lambda(lam) => match args_r {
                Err(_) => {},
                Ok(vals) => {
                    if vals.len() == lam.params.len() {
                        let inner = env.push(bind_params(lam.params, vals));
                        lemma_eval_spec_frame(*lam.body, inner, (fuel - 1) as nat);
                        let (r, env2) = eval_spec(*lam.body, inner, (fuel - 1) as nat);
                        assert(apply_spec(fv, args_r, env, fuel).1 == env2.drop_last());
                        assert forall|i: int| 0 <= i < env.len() implies env2[i] == env[i] by {
                            assert(env2[i] == inner[i]);
                            assert(inner[i] == env[i]);
                        }
                        assert forall|i: int|
                            0 <= i < env.len() - 1 implies env2.drop_last()[i] == env[i] by {
                            assert(env2.drop_last()[i] == env2[i]);
                        }
                    }
                },
            },
            _ => {},
        }
    }
}

proof fn lemma_begin_frame(args: Seq<ExprV>, env: EnvV, fuel: nat)
    requires
        env.len() >= 1,
    ensures
        eval_begin_spec(args, env, fuel).1.len() == env.len(),
        forall|i: int|
            0 <= i < env.len() - 1 ==> eval_begin_spec(args, env, fuel).1[i] == env[i],
    decreases fuel, 1nat, args.len(),
{
    if fuel > 0 && args.len() >= 1 {
        lemma_eval_spec_frame(args[0], env, (fuel - 1) as nat);
        if args.len() > 1 {
            let (r0, env1) = eval_spec(args[0], env, (fuel - 1) as nat);
            match r0 {
                Err(_) => {},
                Ok(_) => {
                    lemma_begin_frame(args.drop_first(), env1, fuel);
                },
            }
        }
    }
}

proof fn lemma_if_frame(args: Seq<ExprV>, env: EnvV, fuel: nat)
    requires
        env.len() >= 1,
    ensures
        eval_if_spec(args, env, fuel).1.len() == env.len(),
        forall|i: int| 0 <= i < env.len() - 1 ==> eval_if_spec(args, env, fuel).1[i] == env[i],
    decreases fuel, 1nat, 0nat,
{
    if fuel > 0 && 1 <= args.len() <= 3 {
        lemma_eval_spec_frame(args[0], env, (fuel - 1) as nat);
        let (tr, env1) = eval_spec(args[0], env, (fuel - 1) as nat);
        match tr {
            Ok(ExprV::Primitive(Primitive::Bool(b))) => {
                let idx: int = if b {
                    1
                } else {
                    2
                };
                if args.len() > idx {
                    lemma_eval_spec_frame(args[idx], env1, (fuel - 1) as nat);
                }
            },
            _ => {},
        }
    }
}

proof fn lemma_def_frame(args: Seq<ExprV>, env: EnvV, fuel: nat)
    requires
        env.len() >= 1,
    ensures
        eval_def_spec(args, env, fuel).1.len() == env.len(),
        forall|i: int| 0 <= i < env.len() - 1 ==> eval_def_spec(args, env, fuel).1[i] == env[i],
    decreases fuel, 1nat, 0nat,
{
    if fuel > 0 && 1 <= args.len() <= 2 {
        match args[0] {
            ExprV::Symbol(name) => {
                if !env.last().contains_key(name) && args.len() == 2 {
                    lemma_eval_spec_frame(args[1], env, (fuel - 1) as nat);
                }
            },
            _ => {},
        }
    }
}

/// How many levels of nested evaluation [`eval`] allows before it reports an
/// error instead of exhausting the native call stack.
pub const DEFAULT_DEPTH: u64 = 1000;

/// Evaluates a lambda-defining form: a parameter list of bare symbols and
/// one body expression.
pub fn eval_lambda(args: &Vec<CrispExpr>) -> (r: CrispResult)
    ensures
        expr_result_view(r) == eval_lambda_spec(exprs_view(args@)),
{
    if args.len() > 2 {
        return Err(eval_error("fn takes exactly 2 arguments"));
    }
    if args.len() == 0 {
        return Err(eval_error("Expected a param expression"));
    }
    match &args[0] {
        CrispExpr::List(items) => match parse_param_list(items) {
            Err(e) => Err(e),
            Ok(names) => {
                if args.len() == 1 {
                    return Err(eval_error("Expected a body expression"));
                }
                Ok(CrispExpr::Lambda(CrispLambda { params: names, body: Box::new(args[1].clone()) }))
            },
        },
        _ => Err(eval_error("Params should be a list")),
    }
}

/// Evaluates every argument expression in order, stopping at the first
/// error.
fn eval_args(args: &Vec<CrispExpr>, env: &mut CrispEnv, fuel: u64) -> (r: Result<
    Vec<CrispExpr>,
    CrispError,
>)
    requires
        old(env).wf(),
        fuel >= 1,
    ensures
        final(env).wf(),
        match r {
            Ok(vals) => eval_seq_spec(exprs_view(args@), old(env)@, fuel as nat) == (
                Ok::<Seq<ExprV>, ErrV>(exprs_view(vals@)),
                final(env)@,
            ),
            Err(e) => eval_seq_spec(exprs_view(args@), old(env)@, fuel as nat) == (
                Err::<Seq<ExprV>, ErrV>(e@),
                final(env)@,
            ),
        },
    decreases fuel, 1int, 0int,
{
    let ghost es = exprs_view(args@);
    let ghost env0 = env@;
    let mut vals: Vec<CrispExpr> = Vec::new();
    let mut i: usize = 0;
    proof {
        assert(es.skip(0) =~= es);
        assert(exprs_view(vals@) =~= Seq::<ExprV>::empty());
    }
    while i < args.len()
        invariant
            i <= args.len(),
            es == exprs_view(args@),
            es.len() == args@.len(),
            env0 == old(env)@,
            env.wf(),
            fuel >= 1,
            eval_seq_spec(es, env0, fuel as nat) == (match eval_seq_spec(
                es.skip(i as int),
                env@,
                fuel as nat,
            ) {
                (Ok(rest), e2) => (Ok::<Seq<ExprV>, ErrV>(exprs_view(vals@) + rest), e2),
                (Err(x), e2) => (Err::<Seq<ExprV>, ErrV>(x), e2),
            }),
        decreases args.len() - i,
    {
        let ghost tail = es.skip(i as int);
        let ghost env_pre = env@;
        proof {
            assert(tail[0] == es[i as int]);
            assert(tail.drop_first() =~= es.skip(i as int + 1));
        }
        match eval_depth(&args[i], env, fuel - 1) {
            Err(e) => {
                proof {
                    assert(eval_seq_spec(tail, env_pre, fuel as nat) == (
                        Err::<Seq<ExprV>, ErrV>(e@),
                        env@,
                    ));
                }
                return Err(e);
            },
            Ok(v) => {
                let ghost prev = exprs_view(vals@);
                let ghost vv = v@;
                vals.push(v);
                i = i + 1;
                proof {
                    assert(exprs_view(vals@) =~= prev.push(vv));
                    match eval_seq_spec(es.skip(i as int), env@, fuel as nat) {
                        (Ok(rest), e2) => {
                            assert(prev + (seq![vv] + rest) =~= exprs_view(vals@) + rest);
                        },
                        (Err(_), _) => {},
                    }
                }
            },
        }
    }
    proof {
        assert(es.skip(i as int) =~= Seq::<ExprV>::empty());
        assert(exprs_view(vals@) + Seq::<ExprV>::empty() =~= exprs_view(vals@));
    }
    Ok(vals)
}

/// Evaluates the arguments of a `begin` form in order against the shared
/// environment and returns the last value.
fn eval_begin_depth(args: &Vec<CrispExpr>, env: &mut CrispEnv, fuel: u64) -> (r: CrispResult)
    requires
        old(env).wf(),
        fuel >= 1,
    ensures
        final(env).wf(),
        expr_result_view(r) == eval_begin_spec(exprs_view(args@), old(env)@, fuel as nat).0,
        final(env)@ == eval_begin_spec(exprs_view(args@), old(env)@, fuel as nat).1,
    decreases fuel, 1int, 0int,
{
    let ghost es = exprs_view(args@);
    let ghost env0 = env@;
    if args.len() == 0 {
        return Err(eval_error("begin takes at least one argument"));
    }
    let mut i: usize = 0;
    proof {
        assert(es.skip(0) =~= es);
    }
    while i + 1 < args.len()
        invariant
            i < args.len(),
            es == exprs_view(args@),
            es.len() == args@.len(),
            env0 == old(env)@,
            env.wf(),
            fuel >= 1,
            eval_begin_spec(es, env0, fuel as nat) == eval_begin_spec(
                es.skip(i as int),
                env@,
                fuel as nat,
            ),
        decreases args.len() - i,
    {
        let ghost tail = es.skip(i as int);
        let ghost env_pre = env@;
        proof {
            assert(tail[0] == es[i as int]);
            assert(tail.drop_first() =~= es.skip(i as int + 1));
        }
        match eval_depth(&args[i], env, fuel - 1) {
            Err(e) => {
                proof {
                    assert(eval_begin_spec(tail, env_pre, fuel as nat) == (
                        Err::<ExprV, ErrV>(e@),
                        env@,
                    ));
                }
                return Err(e);
            },
            Ok(_) => {
                i = i + 1;
            },
        }
    }
    let ghost tail = es.skip(i as int);
    proof {
        assert(tail.len() == 1);
        assert(tail[0] == es[i as int]);
    }
    eval_depth(&args[i], env, fuel - 1)
}

/// Evaluates an `if` form: the test must come out as a boolean, and the
/// selected branch is evaluated.
fn eval_if_depth(args: &Vec<CrispExpr>, env: &mut CrispEnv, fuel: u64) -> (r: CrispResult)
    requires
        old(env).wf(),
        fuel >= 1,
    ensures
        final(env).wf(),
        expr_result_view(r) == eval_if_spec(exprs_view(args@), old(env)@, fuel as nat).0,
        final(env)@ == eval_if_spec(exprs_view(args@), old(env)@, fuel as nat).1,
    decreases fuel, 1int, 0int,
{
    if args.len() > 3 {
        return Err(eval_error("if takes exactly three arguments"));
    }
    if args.len() == 0 {
        return Err(eval_error("Expected an expression"));
    }
    let test_res = match eval_depth(&args[0], env, fuel - 1) {
        Ok(CrispExpr::Primitive(Primitive::Bool(b))) => b,
        _ => {
            return Err(eval_error("Test form must evaluate to a boolean"));
        },
    };
    let idx: usize = if test_res {
        1
    } else {
        2
    };
    if args.len() <= idx {
        return Err(eval_error("missing true or false clause"));
    }
    eval_depth(&args[idx], env, fuel - 1)
}

/// Evaluates a `def` form: binds a fresh name in the innermost scope to the
/// value of the second argument and returns the symbol.
fn eval_def_depth(args: &Vec<CrispExpr>, env: &mut CrispEnv, fuel: u64) -> (r: CrispResult)
    requires
        old(env).wf(),
        fuel >= 1,
    ensures
        final(env).wf(),
        expr_result_view(r) == eval_def_spec(exprs_view(args@), old(env)@, fuel as nat).0,
        final(env)@ == eval_def_spec(exprs_view(args@), old(env)@, fuel as nat).1,
    decreases fuel, 1int, 0int,
{
    if args.len() > 2 {
        return Err(eval_error("def takes exactly two arguments"));
    }
    if args.len() == 0 {
        return Err(eval_error("Expected a name"));
    }
    match &args[0] {
        CrispExpr::Symbol(name) => {
            if env.contains_current(name.as_str()) {
                return Err(
                    CrispError::EvalError(
                        String::from_str("Variable with name '").concat(name.as_str()).concat(
                            "' already exists",
                        ),
                    ),
                );
            }
            if args.len() == 1 {
                return Err(eval_error("Expected a value"));
            }
            match eval_depth(&args[1], env, fuel - 1) {
                Err(e) => Err(e),
                Ok(v) => {
                    env.insert(name.clone(), v);
                    Ok(CrispExpr::Symbol(name.clone()))
                },
            }
        },
        _ => Err(eval_error("First argument must be a symbol")),
    }
}

/// Evaluates a non-empty list form: special forms are dispatched on the
/// head's name; otherwise the head is evaluated and applied to the evaluated
/// arguments.
fn eval_form(first: &CrispExpr, args: &Vec<CrispExpr>, env: &mut CrispEnv, fuel: u64) -> (r:
    CrispResult)
    requires
        old(env).wf(),
        fuel >= 1,
    ensures
        final(env).wf(),
        expr_result_view(r) == eval_form_spec(first@, exprs_view(args@), old(env)@, fuel as nat).0,
        final(env)@ == eval_form_spec(first@, exprs_view(args@), old(env)@, fuel as nat).1,
    decreases fuel, 2int, 0int,
{
    let ghost argviews = exprs_view(args@);
    let ghost env0 = env@;
    match first {
        CrispExpr::Symbol(name) => {
            if is_tok(name, "begin") {
                return eval_begin_depth(args, env, fuel);
            }
            if is_tok(name, "def") {
                return eval_def_depth(args, env, fuel);
            }
            if is_tok(name, "fn") {
                return eval_lambda(args);
            }
            if is_tok(name, "if") {
                return eval_if_depth(args, env, fuel);
            }
            if is_tok(name, "quote") {
                if args.len() >= 1 {
                    return Ok(args[0].clone());
                }
            }
        },
        _ => {},
    }
    let first_form = match eval_depth(first, env, fuel - 1) {
        Ok(v) => v,
        Err(e) => {
            return Err(e);
        },
    };
    let ghost env1 = env@;
    let args_result = eval_args(args, env, fuel);
    let ghost env2 = env@;
    match first_form {
        CrispExpr::Fn(f) => match args_result {
            Ok(vals) => f.call(&vals),
            Err(e) => Err(e),
        },
        CrispExpr::Lambda(lam) => match args_result {
            Err(e) => Err(e),
            Ok(vals) => {
                if vals.len() != lam.params.len() {
                    Err(eval_error("Wrong number of arguments were supplied"))
                } else {
                    let ghost paramviews = strings_view(lam.params@);
                    let ghost valviews = exprs_view(vals@);
                    env.push_scope();
                    proof {
                        assert(bind_params(paramviews.take(0), valviews.take(0)) =~= Map::<
                            Seq<char>,
                            ExprV,
                        >::empty());
                        assert(env@ =~= env2.push(
                            bind_params(paramviews.take(0), valviews.take(0)),
                        ));
                    }
                    let mut k: usize = 0;
                    while k < vals.len()
                        invariant
                            k <= vals.len(),
                            vals@.len() == lam.params@.len(),
                            paramviews == strings_view(lam.params@),
                            valviews == exprs_view(vals@),
                            valviews.len() == vals@.len(),
                            env.wf(),
                            env@ =~= env2.push(
                                bind_params(
                                    paramviews.take(k as int),
                                    valviews.take(k as int),
                                ),
                            ),
                        decreases vals.len() - k,
                    {
                        let ghost pk = paramviews.take(k as int + 1);
                        let ghost vk = valviews.take(k as int + 1);
                        proof {
                            assert(pk.drop_last() =~= paramviews.take(k as int));
                            assert(vk.drop_last() =~= valviews.take(k as int));
                            assert(pk.last() == paramviews[k as int]);
                            assert(vk.last() == valviews[k as int]);
                        }
                        env.insert(lam.params[k].clone(), vals[k].clone());
                        k = k + 1;
                        proof {
                            assert(env@ =~= env2.push(bind_params(pk, vk)));
                        }
                    }
                    proof {
                        assert(paramviews.take(vals@.len() as int) =~= paramviews);
                        assert(valviews.take(vals@.len() as int) =~= valviews);
                    }
                    let body: &CrispExpr = &*lam.body;
                    let res = eval_depth(body, env, fuel - 1);
                    proof {
                        lemma_eval_spec_frame(
                            body@,
                            env2.push(bind_params(paramviews, valviews)),
                            (fuel - 1) as nat,
                        );
                    }
                    env.pop_scope();
                    res
                }
            },
        },
        _ => Err(eval_error("First form must be a function")),
    }
}

/// Evaluates `expr` against `env` with at most `fuel` levels of nested
/// evaluation: primitives are self-evaluating, symbols resolve innermost
/// scope first, and a non-empty list is a special form or an application.
pub fn eval_depth(expr: &CrispExpr, env: &mut CrispEnv, fuel: u64) -> (r: CrispResult)
    requires
        old(env).wf(),
    ensures
        final(env).wf(),
        expr_result_view(r) == eval_spec(expr@, old(env)@, fuel as nat).0,
        final(env)@ == eval_spec(expr@, old(env)@, fuel as nat).1,
    decreases fuel, 3int, 0int,
{
    if fuel == 0 {
        return Err(eval_error("Recursion depth exceeded"));
    }
    match expr {
        CrispExpr::Symbol(name) => match env.get(name.as_str()) {
            Some(v) => Ok(v),
            None => Err(
                CrispError::EvalError(
                    String::from_str("Unknown symbol: ").concat(name.as_str()),
                ),
            ),
        },
        CrispExpr::Primitive(p) => Ok(CrispExpr::Primitive(*p)),
        CrispExpr::List(items) => {
            if items.len() == 0 {
                return Err(eval_error("Can't eval an empty list."));
            }
            let ghost itemviews = exprs_view(items@);
            let mut args: Vec<CrispExpr> = Vec::new();
            let mut k: usize = 1;
            while k < items.len()
                invariant
                    1 <= k <= items.len(),
                    args@.len() == k - 1,
                    forall|j: int| 0 <= j < k - 1 ==> #[trigger] args@[j]@ == items@[j + 1]@,
                decreases items.len() - k,
            {
                args.push(items[k].clone());
                k = k + 1;
            }
            proof {
                assert(exprs_view(args@) =~= itemviews.drop_first());
                assert(itemviews[0] == items@[0]@);
            }
            eval_form(&items[0], &args, env, fuel)
        },
        _ => Err(eval_error("Can't eval a function value")),
    }
}

/// Evaluates `expr` against `env` with the default recursion-depth
/// allowance.
pub fn eval(expr: &CrispExpr, env: &mut CrispEnv) -> (r: CrispResult)
    requires
        old(env).wf(),
    ensures
        final(env).wf(),
        expr_result_view(r) == eval_spec(expr@, old(env)@, DEFAULT_DEPTH as nat).0,
        final(env)@ == eval_spec(expr@, old(env)@, DEFAULT_DEPTH as nat).1,
{
    eval_depth(expr, env, DEFAULT_DEPTH)
}

/// Evaluates the arguments of a `begin` form with the default depth
/// allowance.
pub fn eval_begin(args: &Vec<CrispExpr>, env: &mut CrispEnv) -> (r: CrispResult)
    requires
        old(env).wf(),
    ensures
        final(env).wf(),
        expr_result_view(r) == eval_begin_spec(
            exprs_view(args@),
            old(env)@,
            DEFAULT_DEPTH as nat,
        ).0,
        final(env)@ == eval_begin_spec(exprs_view(args@), old(env)@, DEFAULT_DEPTH as nat).1,
{
    eval_begin_depth(args, env, DEFAULT_DEPTH)
}

/// Evaluates an `if` form with the default depth allowance.
pub fn eval_if(args: &Vec<CrispExpr>, env: &mut CrispEnv) -> (r: CrispResult)
    requires
        old(env).wf(),
    ensures
        final(env).wf(),
        expr_result_view(r) == eval_if_spec(exprs_view(args@), old(env)@, DEFAULT_DEPTH as nat).0,
        final(env)@ == eval_if_spec(exprs_view(args@), old(env)@, DEFAULT_DEPTH as nat).1,
{
    eval_if_depth(args, env, DEFAULT_DEPTH)
}

/// Evaluates a `def` form with the default depth allowance.
pub fn eval_def(args: &Vec<CrispExpr>, env: &mut CrispEnv) -> (r: CrispResult)
    requires
        old(env).wf(),
    ensures
        final(env).wf(),
        expr_result_view(r) == eval_def_spec(exprs_view(args@), old(env)@, DEFAULT_DEPTH as nat).0,
        final(env)@ == eval_def_spec(exprs_view(args@), old(env)@, DEFAULT_DEPTH as nat).1,
{
    eval_def_depth(args, env, DEFAULT_DEPTH)
}

/// Quoting round-trips: evaluating `(quote X)` returns `X` itself,
/// unevaluated and structurally unchanged, and leaves the environment as it
/// was, for every expression `X` and every environment.
pub proof fn lemma_quote_round_trip(x: ExprV, env: EnvV, fuel: nat)
    requires
        fuel >= 1,
    ensures
        eval_spec(ExprV::List(seq![ExprV::Symbol("quote"@), x]), env, fuel) == (
            Ok::<ExprV, ErrV>(x),
            env,
        ),
{
    reveal_strlit("quote");
    reveal_strlit("begin");
    reveal_strlit("def");
    reveal_strlit("fn");
    reveal_strlit("if");
    let items = seq![ExprV::Symbol("quote"@), x];
    let args = items.drop_first();
    assert(args =~= seq![x]);
    assert("quote"@[0] != "begin"@[0]);
    assert("quote"@ != "begin"@);
    assert("quote"@.len() != "def"@.len());
    assert("quote"@.len() != "fn"@.len());
    assert("quote"@.len() != "if"@.len());
    assert(eval_form_spec(items[0], args, env, fuel) == (Ok::<ExprV, ErrV>(x), env));
}

/// Parameter bindings shadow outer ones: applying `(fn (n) n)` to an
/// argument returns the argument's own value, whatever any outer scope binds
/// `n` to; and once the call returns, the caller's environment is exactly as
/// the argument's evaluation left it, so the outer `n` is unaffected.
pub proof fn lemma_param_shadows_outer(name: Seq<char>, arg: ExprV, v: ExprV, env: EnvV, fuel: nat)
    requires
        fuel >= 2,
        env.len() >= 1,
        eval_spec(arg, env, (fuel - 1) as nat) == (Ok::<ExprV, ErrV>(v), env),
    ensures
        eval_spec(
            ExprV::List(
                seq![
                    ExprV::List(
                        seq![
                            ExprV::Symbol("fn"@),
                            ExprV::List(seq![ExprV::Symbol(name)]),
                            ExprV::Symbol(name),
                        ],
                    ),
                    arg,
                ],
            ),
            env,
            fuel,
        ) == (Ok::<ExprV, ErrV>(v), env),
{
    reveal_strlit("fn");
    reveal_strlit("begin");
    reveal_strlit("def");
    reveal_strlit("if");
    reveal_strlit("quote");
    let lam_items = seq![
        ExprV::Symbol("fn"@),
        ExprV::List(seq![ExprV::Symbol(name)]),
        ExprV::Symbol(name),
    ];
    let lam_expr = ExprV::List(lam_items);
    let items = seq![lam_expr, arg];
    let args = items.drop_first();
    assert(args =~= seq![arg]);

    // The head is a list, so the form is an application.
    assert("fn"@.len() != "begin"@.len());
    assert("fn"@.len() != "def"@.len());
    assert("fn"@[0] != "if"@[0]);
    assert("fn"@ != "if"@);
    assert("fn"@.len() != "quote"@.len());

    // Evaluating the head builds the lambda value.
    let lam_args = lam_items.drop_first();
    assert(lam_args =~= seq![ExprV::List(seq![ExprV::Symbol(name)]), ExprV::Symbol(name)]);
    let pl = seq![ExprV::Symbol(name)];
    assert(pl.drop_first() =~= Seq::<ExprV>::empty());
    assert(param_list_spec(pl.drop_first()) == Ok::<Seq<Seq<char>>, ErrV>(Seq::empty()));
    assert(seq![name] + Seq::<Seq<char>>::empty() =~= seq![name]);
    assert(param_list_spec(pl) == Ok::<Seq<Seq<char>>, ErrV>(seq![name]));
    let lamv = LambdaV { params: seq![name], body: Box::new(ExprV::Symbol(name)) };
    assert(eval_lambda_spec(lam_args) == Ok::<ExprV, ErrV>(ExprV::Lambda(lamv)));
    assert(eval_spec(lam_expr, env, (fuel - 1) as nat) == (
        Ok::<ExprV, ErrV>(ExprV::Lambda(lamv)),
        env,
    ));

    // Evaluating the argument list yields the argument's value.
    assert(args.drop_first() =~= Seq::<ExprV>::empty());
    assert(seq![v] + Seq::<ExprV>::empty() =~= seq![v]);
    assert(eval_seq_spec(Seq::<ExprV>::empty(), env, fuel) == (
        Ok::<Seq<ExprV>, ErrV>(Seq::empty()),
        env,
    ));
    assert(eval_seq_spec(args, env, fuel) == (Ok::<Seq<ExprV>, ErrV>(seq![v]), env));

    // Applying the lambda binds `name` innermost, so the body resolves to
    // the argument's value even when an outer scope binds `name` too.
    let binding = bind_params(seq![name], seq![v]);
    assert(seq![name].drop_last() =~= Seq::<Seq<char>>::empty());
    assert(seq![v].drop_last() =~= Seq::<ExprV>::empty());
    assert(bind_params(Seq::<Seq<char>>::empty(), Seq::<ExprV>::empty()) == Map::<
        Seq<char>,
        ExprV,
    >::empty());
    assert(binding == Map::<Seq<char>, ExprV>::empty().insert(name, v));
    let inner = env.push(binding);
    assert(inner.last() == binding);
    assert(lookup_spec(inner, name) == Some(v));
    assert(eval_spec(ExprV::Symbol(name), inner, (fuel - 1) as nat) == (
        Ok::<ExprV, ErrV>(v),
        inner,
    ));
    assert(inner.drop_last() =~= env);
    assert(apply_spec(ExprV::Lambda(lamv), Ok(seq![v]), env, fuel) == (Ok::<ExprV, ErrV>(v), env));
}

/// Clones one scope's association list.
fn clone_scope(scope: &Vec<(String, CrispExpr)>) -> (r: Vec<(String, CrispExpr)>)
    ensures
        scope_view(r@) == scope_view(scope@),
{
    let mut out: Vec<(String, CrispExpr)> = Vec::new();
    let mut i: usize = 0;
    while i < scope.len()
        invariant
            i <= scope.len(),
            out@.len() == i,
            forall|j: int|
                0 <= j < i ==> (#[trigger] out@[j]).0@ == scope@[j].0@ && out@[j].1@
                    == scope@[j].1@,
        decreases scope.len() - i,
    {
        let entry = &scope[i];
        out.push((entry.0.clone(), entry.1.clone()));
        i = i + 1;
    }
    proof {
        lemma_scope_view_congruence(out@, scope@);
    }
    out
}

/// Association lists whose entries bind the same names to the same values
/// denote the same mapping.
proof fn lemma_scope_view_congruence(s1: Seq<(String, CrispExpr)>, s2: Seq<(String, CrispExpr)>)
    requires
        s1.len() == s2.len(),
        forall|j: int| 0 <= j < s1.len() ==> (#[trigger] s1[j]).0@ == s2[j].0@ && s1[j].1@
            == s2[j].1@,
    ensures
        scope_view(s1) == scope_view(s2),
    decreases s1.len(),
{
    if s1.len() > 0 {
        lemma_scope_view_congruence(s1.drop_last(), s2.drop_last());
    }
}

} // verus!
