//! The GVM equations of a tree: boolean expressions over local variables
//! that decide whether a cell receives on, sends on, extends and saves for
//! the tree.
use vstd::prelude::*;

use crate::utility::S;

verus! {

/// One of the four equations, with its expression text.
#[derive(Debug, Copy, Clone)]
pub enum GvmEqn<'a> {
    Recv(&'a str),
    Send(&'a str),
    Xtnd(&'a str),
    Save(&'a str),
}

#[derive(Debug, Copy, Clone, PartialEq, Eq, Structural, Hash)]
pub enum GvmVariableType {
    CellNo,
    PathLength,
}

/// A variable an equation may use, with its value as JSON text.
#[derive(Debug)]
pub struct GvmVariable {
    var_type: GvmVariableType,
    var_name: String,
    value: String,
}

impl GvmVariable {
    pub closed spec fn spec_var_type(&self) -> GvmVariableType {
        self.var_type
    }

    pub closed spec fn spec_var_name(&self) -> Seq<char> {
        self.var_name@
    }

    pub closed spec fn spec_value(&self) -> Seq<char> {
        self.value@
    }

    /// A variable with an empty value.
    pub fn new(var_type: GvmVariableType, var_name: &str) -> (v: GvmVariable)
        ensures
            v.spec_var_type() == var_type,
            v.spec_var_name() == var_name@,
            v.spec_value() == Seq::<char>::empty(),
    {
        proof {
            reveal_strlit("");
        }
        GvmVariable { var_type, var_name: S(var_name), value: S("") }
    }

    pub fn get_var_type(&self) -> (t: &GvmVariableType)
        ensures
            *t == self.spec_var_type(),
    {
        &self.var_type
    }

    pub fn get_var_name(&self) -> (s: &String)
        ensures
            s@ == self.spec_var_name(),
    {
        &self.var_name
    }

    pub fn get_value(&self) -> (s: &String)
        ensures
            s@ == self.spec_value(),
    {
        &self.value
    }

    pub fn set_value(&mut self, value: String)
        ensures
            final(self).spec_value() == value@,
            final(self).spec_var_name() == old(self).spec_var_name(),
            final(self).spec_var_type() == old(self).spec_var_type(),
    {
        self.value = value;
    }
}

impl Clone for GvmVariable {
    fn clone(&self) -> (r: Self)
        ensures
            r.spec_var_type() == self.spec_var_type(),
            r.spec_var_name() == self.spec_var_name(),
            r.spec_value() == self.spec_value(),
    {
        GvmVariable { var_type: self.var_type, var_name: self.var_name.clone(), value: self.value.clone() }
    }
}

/// The four equations of a tree and the variables they use.
#[derive(Debug)]
pub struct GvmEquation {
    recv_eqn: String,
    send_eqn: String,
    save_eqn: String,
    xtnd_eqn: String,
    variables: Vec<GvmVariable>,
}

/// The text of the last equation of a kind in `eqns`, or `"false"` when there is none.
pub open spec fn last_eqn_of(eqns: Seq<GvmEqn>, kind: int) -> Seq<char>
    decreases eqns.len(),
{
    if eqns.len() == 0 {
        seq!['f', 'a', 'l', 's', 'e']
    } else {
        let e = eqns.last();
        let k = match e {
            GvmEqn::Recv(_) => 0int,
            GvmEqn::Send(_) => 1int,
            GvmEqn::Xtnd(_) => 2int,
            GvmEqn::Save(_) => 3int,
        };
        if k == kind {
            eqn_text(e)
        } else {
            last_eqn_of(eqns.drop_last(), kind)
        }
    }
}

pub open spec fn eqn_text(e: GvmEqn) -> Seq<char> {
    match e {
        GvmEqn::Recv(s) => s@,
        GvmEqn::Send(s) => s@,
        GvmEqn::Xtnd(s) => s@,
        GvmEqn::Save(s) => s@,
    }
}

/// What a JSON text parses to as an unsigned number (the encoding of
/// `CellNo` and `PathLength` values), if it is one.
pub uninterp spec fn json_usize(text: Seq<char>) -> Option<usize>;

/// What the `eval` crate gives for an expression with the given variable
/// values: `None` where evaluation fails, else the value it computed read as a
/// boolean (`None` inside when the value is not a boolean).
pub uninterp spec fn eval_value(eqn: Seq<char>, bindings: Seq<(Seq<char>, usize)>) -> Option<Option<bool>>;

/// The arithmetic operators whose integer results can overflow.
pub open spec fn is_arithmetic_char(c: char) -> bool {
    c == '+' || c == '-' || c == '*'
}

/// Characters an expression may not hold: brackets, parentheses, commas,
/// quotes, dots, `%`, and anything outside ASCII.
pub open spec fn is_refused_char(c: char) -> bool {
    ||| c == '(' || c == ')' || c == '[' || c == ']' || c == ','
    ||| c == '"' || c == '\'' || c == '.' || c == '%'
    ||| (c as u32) >= 128
}

pub open spec fn is_digit(c: char) -> bool {
    '0' <= c && c <= '9'
}

/// How many arithmetic operators the expression holds.
pub open spec fn arithmetic_count(eqn: Seq<char>) -> nat
    decreases eqn.len(),
{
    if eqn.len() == 0 {
        0
    } else {
        arithmetic_count(eqn.drop_last()) + if is_arithmetic_char(eqn.last()) {
            1nat
        } else {
            0nat
        }
    }
}

/// Whether four digits stand in a row somewhere in the expression.
pub open spec fn long_number(eqn: Seq<char>) -> bool {
    exists|i: int|
        0 <= i && i + 3 < eqn.len() && #[trigger] is_digit(eqn[i]) && is_digit(eqn[i + 1]) && is_digit(eqn[i + 2])
            && is_digit(eqn[i + 3])
}

/// The expressions that the `eval` crate evaluates without panicking, with
/// the variable values: ASCII text of at most 1000 characters (the crate
/// evaluates by recursion as deep as the expression) without brackets,
/// parentheses, commas,
/// quotes, dots or `%`, in which every `!` starts a `!=`; and, where it does
/// arithmetic, at most five `+`, `-` or `*`, no number of more than three
/// digits, and variable values of at most 999, so that no integer result
/// leaves the range of `i64`.
pub open spec fn evaluable(eqn: Seq<char>, bindings: Seq<(Seq<char>, usize)>) -> bool {
    &&& eqn.len() <= 1000
    &&& forall|i: int| 0 <= i < eqn.len() ==> !is_refused_char(#[trigger] eqn[i])
    &&& forall|i: int| 0 <= i < eqn.len() && #[trigger] eqn[i] == '!' ==> i + 1 < eqn.len() && eqn[i + 1] == '='
    &&& arithmetic_count(eqn) > 0 ==> {
        &&& arithmetic_count(eqn) <= 5
        &&& !long_number(eqn)
        &&& forall|k: int| 0 <= k < bindings.len() ==> (#[trigger] bindings[k]).1 <= 999
    }
}

/// Whether an expression evaluates to `true` with the given variable values,
/// or `None` where evaluation fails. An expression the `eval` crate cannot
/// evaluate safely (see `evaluable`) is refused as a failed evaluation; a
/// value that is not a boolean counts as not `true`.
pub open spec fn eval_bool(eqn: Seq<char>, bindings: Seq<(Seq<char>, usize)>) -> Option<bool> {
    if !evaluable(eqn, bindings) {
        None
    } else {
        match eval_value(eqn, bindings) {
            None => None,
            Some(None) => Some(false),
            Some(Some(b)) => Some(b),
        }
    }
}

/// The variable bindings as plain values.
pub open spec fn binding_values(b: Seq<(String, usize)>) -> Seq<(Seq<char>, usize)> {
    b.map_values(|p: (String, usize)| (p.0@, p.1))
}

/// Parses a JSON unsigned number (`serde_json::from_str::<usize>`).
#[verifier::external_body]
fn parse_json_usize(text: &str) -> (r: Option<usize>)
    ensures
        r == json_usize(text@),
{
    serde_json::from_str::<usize>(text).ok()
}

/// Evaluates an expression with the `eval` crate (`Expr::new`, `Expr::value`
/// for each binding, `Expr::exec`) and reads the value with `as_bool`. The
/// contract names the result and claims nothing more; the expression and
/// values must be among those the crate evaluates without panicking.
#[verifier::external_body]
fn eval_expression(eqn: &str, bindings: &Vec<(String, usize)>) -> (r: Option<Option<bool>>)
    requires
        evaluable(eqn@, binding_values(bindings@)),
    ensures
        r == eval_value(eqn@, binding_values(bindings@)),
{
    let mut expr = eval::Expr::new(eqn);
    for (name, value) in bindings.iter() {
        expr = expr.value(name.as_str(), *value);
    }
    match expr.exec() {
        Ok(v) => Some(v.as_bool()),
        Err(_) => None,
    }
}

/// Whether the expression, with the variable values, is one the `eval`
/// crate evaluates safely.
fn evaluable_with(eqn: &str, bindings: &Vec<(String, usize)>) -> (b: bool)
    ensures
        b == evaluable(eqn@, binding_values(bindings@)),
{
    let n = eqn.unicode_len();
    if n > 1000 {
        return false;
    }
    let mut count: usize = 0;
    let mut long = false;
    let mut i: usize = 0;
    while i < n
        invariant
            n == eqn@.len(),
            i <= n,
            count == arithmetic_count(eqn@.take(i as int)),
            count <= i,
            forall|k: int| 0 <= k < i ==> !is_refused_char(#[trigger] eqn@[k]),
            forall|k: int| 0 <= k < i && #[trigger] eqn@[k] == '!' ==> k + 1 < n && eqn@[k + 1] == '=',
            long <==> exists|k: int|
                0 <= k < i && k + 3 < n && #[trigger] is_digit(eqn@[k]) && is_digit(eqn@[k + 1]) && is_digit(eqn@[k + 2])
                    && is_digit(eqn@[k + 3]),
        decreases n - i,
    {
        let c = eqn.get_char(i);
        if c == '(' || c == ')' || c == '[' || c == ']' || c == ',' || c == '"' || c == '\'' || c == '.' || c == '%'
            || (c as u32) >= 128 {
            assert(is_refused_char(eqn@[i as int]));
            return false;
        }
        if c == '!' && (i + 1 >= n || eqn.get_char(i + 1) != '=') {
            return false;
        }
        if n - i > 3 && '0' <= c && c <= '9' {
            let c1 = eqn.get_char(i + 1);
            let c2 = eqn.get_char(i + 2);
            let c3 = eqn.get_char(i + 3);
            if '0' <= c1 && c1 <= '9' && '0' <= c2 && c2 <= '9' && '0' <= c3 && c3 <= '9' {
                assert(is_digit(eqn@[i as int]) && is_digit(eqn@[i + 1]) && is_digit(eqn@[i + 2]) && is_digit(eqn@[i + 3]));
                long = true;
            }
        }
        proof {
            assert(eqn@.take(i + 1).drop_last() =~= eqn@.take(i as int));
        }
        if c == '+' || c == '-' || c == '*' {
            count = count + 1;
        }
        i = i + 1;
    }
    proof {
        assert(eqn@.take(n as int) =~= eqn@);
        assert(count == arithmetic_count(eqn@));
        assert(long == long_number(eqn@));
    }
    if count == 0 {
        return true;
    }
    if count > 5 || long {
        return false;
    }
    let mut k: usize = 0;
    while k < bindings.len()
        invariant
            k <= bindings@.len(),
            count == arithmetic_count(eqn@),
            count > 0,
            forall|j: int| 0 <= j < k ==> (#[trigger] binding_values(bindings@)[j]).1 <= 999,
        decreases bindings@.len() - k,
    {
        if bindings[k].1 > 999 {
            assert(binding_values(bindings@)[k as int].1 > 999);
            return false;
        }
        k = k + 1;
    }
    true
}

#[derive(Debug)]
pub enum GvmEquationError {
    Eval { func_name: &'static str, eqn: GvmEquation },
    Deserialize { func_name: &'static str, var_type: GvmVariableType, expr: String },
}

/// The bindings that the variables give when every value parses: the
/// variables' names with their parsed values.
pub open spec fn parsed_bindings(params: Seq<GvmVariable>) -> Option<Seq<(Seq<char>, usize)>>
    decreases params.len(),
{
    if params.len() == 0 {
        Some(Seq::empty())
    } else {
        match parsed_bindings(params.drop_last()) {
            None => None,
            Some(prev) => match json_usize(params.last().spec_value()) {
                None => None,
                Some(v) => Some(prev.push((params.last().spec_var_name(), v))),
            },
        }
    }
}

/// The index of the first variable whose value does not parse.
pub open spec fn first_unparsed(params: Seq<GvmVariable>, i: int) -> bool {
    &&& 0 <= i < params.len()
    &&& json_usize(params[i].spec_value()) is None
    &&& forall|k: int| 0 <= k < i ==> json_usize(#[trigger] params[k].spec_value()) is Some
}

/// What evaluating an equation with the given variables gives.
pub open spec fn evaluation(eqn_text: Seq<char>, params: Seq<GvmVariable>, r: Result<bool, GvmEquationError>) -> bool {
    match parsed_bindings(params) {
        None => exists|i: int|
            first_unparsed(params, i) && (r matches Err(GvmEquationError::Deserialize {
                func_name,
                var_type,
                expr,
            }) && func_name == "evaluate" && var_type == params[i].spec_var_type() && expr@
                == params[i].spec_value()),
        Some(bindings) => match eval_bool(eqn_text, bindings) {
            Some(b) => r == Ok::<bool, GvmEquationError>(b),
            None => r matches Err(GvmEquationError::Eval { func_name, eqn }) && func_name
                == "evaluate",
        },
    }
}

proof fn lemma_parsed_prefix(params: Seq<GvmVariable>, i: int)
    requires
        0 <= i <= params.len(),
        forall|k: int| 0 <= k < i ==> json_usize(#[trigger] params[k].spec_value()) is Some,
    ensures
        parsed_bindings(params.take(i)) is Some,
    decreases i,
{
    if i > 0 {
        lemma_parsed_prefix(params, i - 1);
        assert(params.take(i).drop_last() =~= params.take(i - 1));
    }
}

proof fn lemma_parsed_none_after(params: Seq<GvmVariable>, i: int, j: int)
    requires
        0 <= i < j <= params.len(),
        json_usize(params[i].spec_value()) is None,
    ensures
        parsed_bindings(params.take(j)) is None,
    decreases j,
{
    assert(params.take(j).drop_last() =~= params.take(j - 1));
    if j - 1 > i {
        lemma_parsed_none_after(params, i, j - 1);
    }
}

impl GvmEquation {
    pub closed spec fn spec_recv(&self) -> Seq<char> {
        self.recv_eqn@
    }

    pub closed spec fn spec_send(&self) -> Seq<char> {
        self.send_eqn@
    }

    pub closed spec fn spec_save(&self) -> Seq<char> {
        self.save_eqn@
    }

    pub closed spec fn spec_xtnd(&self) -> Seq<char> {
        self.xtnd_eqn@
    }

    pub closed spec fn spec_variables(&self) -> Seq<GvmVariable> {
        self.variables@
    }

    /// Each equation is the last one of its kind given, or `"false"`.
    pub fn new(equations: &Vec<GvmEqn>, variables: Vec<GvmVariable>) -> (g: GvmEquation)
        ensures
            g.spec_recv() == last_eqn_of(equations@, 0),
            g.spec_send() == last_eqn_of(equations@, 1),
            g.spec_xtnd() == last_eqn_of(equations@, 2),
            g.spec_save() == last_eqn_of(equations@, 3),
            g.spec_variables() == variables@,
    {
        proof {
            reveal_strlit("false");
        }
        let mut recv = S("false");
        let mut send = S("false");
        let mut xtnd = S("false");
        let mut save = S("false");
        let mut i: usize = 0;
        while i < equations.len()
            invariant
                i <= equations@.len(),
                recv@ == last_eqn_of(equations@.take(i as int), 0),
                send@ == last_eqn_of(equations@.take(i as int), 1),
                xtnd@ == last_eqn_of(equations@.take(i as int), 2),
                save@ == last_eqn_of(equations@.take(i as int), 3),
            decreases equations@.len() - i,
        {
            assert(equations@.take(i + 1).drop_last() =~= equations@.take(i as int));
            match equations[i] {
                GvmEqn::Recv(s) => recv = S(s),
                GvmEqn::Send(s) => send = S(s),
                GvmEqn::Xtnd(s) => xtnd = S(s),
                GvmEqn::Save(s) => save = S(s),
            }
            i = i + 1;
        }
        assert(equations@.take(equations@.len() as int) =~= equations@);
        GvmEquation { recv_eqn: recv, send_eqn: send, save_eqn: save, xtnd_eqn: xtnd, variables }
    }

    pub fn get_variables(&self) -> (v: &[GvmVariable])
        ensures
            v@ == self.spec_variables(),
    {
        self.variables.as_slice()
    }

    pub fn eval_recv(&self, params: &[GvmVariable]) -> (r: Result<bool, GvmEquationError>)
        ensures
            evaluation(self.spec_recv(), params@, r),
    {
        self.evaluate(&self.recv_eqn, params)
    }

    pub fn eval_send(&self, params: &[GvmVariable]) -> (r: Result<bool, GvmEquationError>)
        ensures
            evaluation(self.spec_send(), params@, r),
    {
        self.evaluate(&self.send_eqn, params)
    }

    pub fn eval_save(&self, params: &[GvmVariable]) -> (r: Result<bool, GvmEquationError>)
        ensures
            evaluation(self.spec_save(), params@, r),
    {
        self.evaluate(&self.save_eqn, params)
    }

    pub fn eval_xtnd(&self, params: &[GvmVariable]) -> (r: Result<bool, GvmEquationError>)
        ensures
            evaluation(self.spec_xtnd(), params@, r),
    {
        self.evaluate(&self.xtnd_eqn, params)
    }

    /// Parses each variable's value, then evaluates the equation with them.
    fn evaluate(&self, eqn: &String, params: &[GvmVariable]) -> (r: Result<bool, GvmEquationError>)
        ensures
            evaluation(eqn@, params@, r),
    {
        let mut bindings: Vec<(String, usize)> = Vec::new();
        let mut i: usize = 0;
        while i < params.len()
            invariant
                i <= params@.len(),
                parsed_bindings(params@.take(i as int)) == Some(binding_values(bindings@)),
            decreases params@.len() - i,
        {
            let variable = &params[i];
            let str_val = variable.get_value();
            match parse_json_usize(str_val.as_str()) {
                Some(value) => {
                    let ghost prev = bindings@;
                    bindings.push((variable.get_var_name().clone(), value));
                    proof {
                        assert(params@.take(i + 1).drop_last() =~= params@.take(i as int));
                        assert(binding_values(bindings@) =~= binding_values(prev).push(
                            (params@[i as int].spec_var_name(), value),
                        ));
                    }
                },
                None => {
                    proof {
                        assert forall|k: int| 0 <= k < i implies json_usize(
                            #[trigger] params@[k].spec_value(),
                        ) is Some by {
                            if json_usize(params@[k].spec_value()) is None {
                                lemma_parsed_none_after(params@, k, i as int);
                            }
                        }
                        assert(first_unparsed(params@, i as int));
                        lemma_parsed_none_after(params@, i as int, params@.len() as int);
                        assert(params@.take(params@.len() as int) =~= params@);
                    }
                    return Err(
                        GvmEquationError::Deserialize {
                            func_name: "evaluate",
                            var_type: *variable.get_var_type(),
                            expr: str_val.clone(),
                        },
                    );
                },
            }
            i = i + 1;
        }
        assert(params@.take(params@.len() as int) =~= params@);
        if !evaluable_with(eqn.as_str(), &bindings) {
            return Err(GvmEquationError::Eval { func_name: "evaluate", eqn: self.clone() });
        }
        match eval_expression(eqn.as_str(), &bindings) {
            Some(Some(b)) => Ok(b),
            Some(None) => Ok(false),
            None => Err(GvmEquationError::Eval { func_name: "evaluate", eqn: self.clone() }),
        }
    }
}

/// An equation with the four given expressions and no variables.
pub fn equation_of(recv: &str, send: &str, xtnd: &str, save: &str) -> (g: GvmEquation)
    ensures
        g.spec_recv() == recv@,
        g.spec_send() == send@,
        g.spec_xtnd() == xtnd@,
        g.spec_save() == save@,
        g.spec_variables().len() == 0,
{
    let eqns: Vec<GvmEqn> = vec![GvmEqn::Recv(recv), GvmEqn::Send(send), GvmEqn::Xtnd(xtnd), GvmEqn::Save(save)];
    let g = GvmEquation::new(&eqns, Vec::new());
    proof {
        reveal_with_fuel(last_eqn_of, 5);
        assert(eqns@.drop_last() =~= seq![GvmEqn::Recv(recv), GvmEqn::Send(send), GvmEqn::Xtnd(xtnd)]);
        assert(eqns@.drop_last().drop_last() =~= seq![GvmEqn::Recv(recv), GvmEqn::Send(send)]);
        assert(eqns@.drop_last().drop_last().drop_last() =~= seq![GvmEqn::Recv(recv)]);
    }
    g
}

/// Two lists of variables with the same types, names and values.
pub open spec fn same_variables(a: Seq<GvmVariable>, b: Seq<GvmVariable>) -> bool {
    &&& a.len() == b.len()
    &&& forall|k: int|
        0 <= k < a.len() ==> (#[trigger] a[k]).spec_var_type() == b[k].spec_var_type()
            && a[k].spec_var_name() == b[k].spec_var_name() && a[k].spec_value() == b[k].spec_value()
}

/// Two equations with the same four expressions and the same variables.
pub open spec fn same_equation(a: GvmEquation, b: GvmEquation) -> bool {
    &&& a.spec_recv() == b.spec_recv()
    &&& a.spec_send() == b.spec_send()
    &&& a.spec_save() == b.spec_save()
    &&& a.spec_xtnd() == b.spec_xtnd()
    &&& same_variables(a.spec_variables(), b.spec_variables())
}

impl Clone for GvmEquation {
    fn clone(&self) -> (r: Self)
        ensures
            r.spec_recv() == self.spec_recv(),
            r.spec_send() == self.spec_send(),
            r.spec_save() == self.spec_save(),
            r.spec_xtnd() == self.spec_xtnd(),
            same_variables(r.spec_variables(), self.spec_variables()),
    {
        let mut variables: Vec<GvmVariable> = Vec::new();
        let mut i: usize = 0;
        while i < self.variables.len()
            invariant
                i <= self.variables@.len(),
                same_variables(variables@, self.variables@.take(i as int)),
            decreases self.variables@.len() - i,
        {
            variables.push(self.variables[i].clone());
            i = i + 1;
        }
        assert(self.variables@.take(self.variables@.len() as int) =~= self.variables@);
        GvmEquation {
            recv_eqn: self.recv_eqn.clone(),
            send_eqn: self.send_eqn.clone(),
            save_eqn: self.save_eqn.clone(),
            xtnd_eqn: self.xtnd_eqn.clone(),
            variables,
        }
    }
}


impl GvmVariableType {
    /// The name of the variable's type.
    pub open spec fn spec_text(&self) -> &'static str {
        match self {
            GvmVariableType::CellNo => "CellNo",
            GvmVariableType::PathLength => "PathLength",
        }
    }

    /// The name of the variable's type.
    pub fn to_string(&self) -> (s: String)
        ensures
            s@ == self.spec_text()@,
    {
        let t: &'static str = match self {
            GvmVariableType::CellNo => "CellNo",
            GvmVariableType::PathLength => "PathLength",
        };
        S(t)
    }
}

} // verus!
