use vstd::prelude::*;
use vstd::string::StringExecFns;

verus! {

broadcast use vstd::std_specs::vec::group_vec_axioms;

/// Errors that the pipeline reports. All of them are terminal for the
/// evaluation in progress: the first error stops the pipeline and is handed
/// back to the caller verbatim.
#[derive(Debug, PartialEq)]
pub enum CrispError {
    /// A malformed token stream (unmatched parentheses, parameter-list misuse).
    SyntaxError(String),
    /// The token stream ran out where an expression was expected. The two
    /// fields are a line/character placeholder, always `(1, 0)`.
    MissingParen(u32, u32),
    /// A semantic failure during evaluation.
    EvalError(String),
}

/// The mathematical shape of a [`CrispError`].
pub enum ErrV {
    SyntaxError(Seq<char>),
    MissingParen(u32, u32),
    EvalError(Seq<char>),
}

impl View for CrispError {
    type V = ErrV;

    open spec fn view(&self) -> ErrV {
        match self {
            CrispError::SyntaxError(msg) => ErrV::SyntaxError(msg@),
            CrispError::MissingParen(line, ch) => ErrV::MissingParen(*line, *ch),
            CrispError::EvalError(msg) => ErrV::EvalError(msg@),
        }
    }
}

impl Clone for CrispError {
    fn clone(&self) -> (r: Self)
        ensures
            r@ == self@,
    {
        match self {
            CrispError::SyntaxError(msg) => CrispError::SyntaxError(msg.clone()),
            CrispError::MissingParen(line, ch) => CrispError::MissingParen(*line, *ch),
            CrispError::EvalError(msg) => CrispError::EvalError(msg.clone()),
        }
    }
}

/// Builds an `EvalError` out of a message literal.
pub(crate) fn eval_error(msg: &str) -> (e: CrispError)
    ensures
        e@ == ErrV::EvalError(msg@),
{
    CrispError::EvalError(msg.to_owned())
}

/// Builds a `SyntaxError` out of a message literal.
pub(crate) fn syntax_error(msg: &str) -> (e: CrispError)
    ensures
        e@ == ErrV::SyntaxError(msg@),
{
    CrispError::SyntaxError(msg.to_owned())
}

/// Whether the string `t` holds exactly the text `lit`.
pub(crate) fn is_tok(t: &String, lit: &str) -> (r: bool)
    ensures
        r == (t@ == lit@),
{
    let s = String::from_str(lit);
    t.eq(&s)
}

/// An atomic value. Numbers carry the bit pattern of an IEEE 754 binary32
/// (single-precision) value; all numeric behaviour of the language is
/// single-precision floating point, performed on these bit patterns.
#[derive(Debug, Clone, Copy, PartialEq, Eq, Structural)]
pub enum Primitive {
    Number(u32),
    Bool(bool),
}

/// The closed set of native functions. Representing built-ins as an
/// enumerated set makes their equality "same built-in identifier".
#[derive(Debug, Clone, Copy, PartialEq, Eq, Structural)]
pub enum Builtin {
    /// `+`: folds its numeric arguments with addition, identity 0.
    Add,
    /// `-`: takes at least one argument and subtracts the rest from the first.
    Sub,
    /// `*`: folds its numeric arguments with multiplication, identity 1.
    Mul,
    /// `>`: compares its first two numeric arguments.
    Gt,
}

/// A native (built-in) function value.
#[derive(Debug, Clone, Copy, PartialEq, Eq, Structural)]
pub struct CrispFn(pub Builtin);

/// A user-defined function: a fixed parameter list and a single body
/// expression. No defining environment is captured; free variables resolve
/// against the caller's environment chain at call time.
#[derive(Debug, PartialEq)]
pub struct CrispLambda {
    pub params: Vec<String>,
    pub body: Box<CrispExpr>,
}

/// The single expression type shared by the parser and the evaluator: the
/// language is homoiconic, so code and data have the same representation.
#[derive(Debug, PartialEq)]
pub enum CrispExpr {
    Symbol(String),
    Primitive(Primitive),
    List(Vec<CrispExpr>),
    Fn(CrispFn),
    Lambda(CrispLambda),
}

pub type CrispResult = Result<CrispExpr, CrispError>;

/// The mathematical shape of a [`CrispLambda`].
pub struct LambdaV {
    pub params: Seq<Seq<char>>,
    pub body: Box<ExprV>,
}

/// The mathematical shape of a [`CrispExpr`]; every contract of the lexer,
/// parser and evaluator is stated over this type.
pub enum ExprV {
    Symbol(Seq<char>),
    Primitive(Primitive),
    List(Seq<ExprV>),
    Fn(CrispFn),
    Lambda(LambdaV),
}

/// The views of the strings of a sequence, in order.
pub open spec fn strings_view(s: Seq<String>) -> Seq<Seq<char>> {
    Seq::new(s.len(), |i: int| s[i]@)
}

/// The views of the expressions of a sequence, in order.
pub open spec fn exprs_view(s: Seq<CrispExpr>) -> Seq<ExprV>
    decreases s,
{
    if s.len() == 0 {
        Seq::empty()
    } else {
        seq![s[0]@] + exprs_view(s.drop_first())
    }
}

impl View for CrispLambda {
    type V = LambdaV;

    open spec fn view(&self) -> LambdaV
        decreases self,
    {
        LambdaV { params: strings_view(self.params@), body: Box::new((*self.body)@) }
    }
}

impl View for CrispExpr {
    type V = ExprV;

    open spec fn view(&self) -> ExprV
        decreases self,
    {
        match self {
            CrispExpr::Symbol(name) => ExprV::Symbol(name@),
            CrispExpr::Primitive(p) => ExprV::Primitive(*p),
            CrispExpr::List(items) => ExprV::List(exprs_view(items@)),
            CrispExpr::Fn(f) => ExprV::Fn(*f),
            CrispExpr::Lambda(lam) => ExprV::Lambda(lam@),
        }
    }
}

/// The views of an expression-or-error result.
pub open spec fn expr_result_view(r: Result<CrispExpr, CrispError>) -> Result<ExprV, ErrV> {
    match r {
        Ok(e) => Ok(e@),
        Err(err) => Err(err@),
    }
}

pub broadcast proof fn lemma_exprs_view_len(s: Seq<CrispExpr>)
    ensures
        #[trigger] exprs_view(s).len() == s.len(),
    decreases s,
{
    if s.len() > 0 {
        lemma_exprs_view_len(s.drop_first());
        assert(exprs_view(s) == seq![s[0]@] + exprs_view(s.drop_first()));
        assert(exprs_view(s).len() == 1 + exprs_view(s.drop_first()).len());
    } else {
        assert(exprs_view(s) == Seq::<ExprV>::empty());
    }
}

pub broadcast proof fn lemma_exprs_view_index(s: Seq<CrispExpr>, i: int)
    requires
        0 <= i < s.len(),
    ensures
        #[trigger] exprs_view(s)[i] == s[i]@,
    decreases s,
{
    broadcast use lemma_exprs_view_len;

    assert(exprs_view(s) == seq![s[0]@] + exprs_view(s.drop_first()));
    if i > 0 {
        lemma_exprs_view_index(s.drop_first(), i - 1);
        assert(exprs_view(s)[i] == exprs_view(s.drop_first())[i - 1]);
    }
}

impl CrispExpr {
    /// Whether this expression is a symbol.
    pub fn is_symbol(&self) -> (r: bool)
        ensures
            r == (self@ is Symbol),
    {
        match self {
            CrispExpr::Symbol(_) => true,
            _ => false,
        }
    }
}

/// Clones every string of a vector.
fn clone_strings(v: &Vec<String>) -> (r: Vec<String>)
    ensures
        r@ =~= v@,
{
    let mut out: Vec<String> = Vec::new();
    let mut i: usize = 0;
    while i < v.len()
        invariant
            i <= v.len(),
            out@.len() == i,
            forall|j: int| 0 <= j < i ==> out@[j] == v@[j],
        decreases v.len() - i,
    {
        out.push(v[i].clone());
        i = i + 1;
    }
    out
}

/// Clones every expression of a vector.
fn clone_exprs(v: &Vec<CrispExpr>) -> (r: Vec<CrispExpr>)
    ensures
        exprs_view(r@) =~= exprs_view(v@),
    decreases *v,
{
    broadcast use lemma_exprs_view_len, lemma_exprs_view_index;

    let mut out: Vec<CrispExpr> = Vec::new();
    let mut i: usize = 0;
    while i < v.len()
        invariant
            i <= v.len(),
            out@.len() == i,
            forall|j: int| 0 <= j < i ==> #[trigger] out@[j]@ == v@[j]@,
        decreases v.len() - i,
    {
        out.push(v[i].clone());
        i = i + 1;
    }
    out
}

impl Clone for CrispLambda {
    fn clone(&self) -> (r: Self)
        ensures
            r@ == self@,
        decreases self,
    {
        let body: &CrispExpr = &*self.body;
        CrispLambda { params: clone_strings(&self.params), body: Box::new(body.clone()) }
    }
}

impl Clone for CrispExpr {
    fn clone(&self) -> (r: Self)
        ensures
            r@ == self@,
        decreases self,
    {
        match self {
            CrispExpr::Symbol(name) => CrispExpr::Symbol(name.clone()),
            CrispExpr::Primitive(p) => CrispExpr::Primitive(*p),
            CrispExpr::List(items) => CrispExpr::List(clone_exprs(items)),
            CrispExpr::Fn(f) => CrispExpr::Fn(*f),
            CrispExpr::Lambda(lam) => CrispExpr::Lambda(lam.clone()),
        }
    }
}

} // verus!
