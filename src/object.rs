use vstd::prelude::*;
use crate::ast::{
    Statement, StmtView, copy_names, copy_stmts, names_view, stmts_view,
};
use crate::lexer::same_text;

verus! {

/// Why evaluation failed.
#[derive(Debug, Clone, Copy, PartialEq, Eq, Structural)]
pub enum EvalError {
    IdentifierNotFound,
    OperandTypeMismatch,
    UnknownOperator,
    NonBooleanCondition,
    NotCallable,
    BuiltinNotFound,
    /// A built-in got the wrong number or kind of arguments.
    BuiltinArgs,
    IndexOutOfRange,
    DivisionByZero,
    IntegerOverflow,
    ArityMismatch,
    CallDepthExceeded,
    EmptyBlock,
    UnsupportedOperation,
}

/// A runtime value.
#[derive(Debug)]
pub enum Objects {
    Integer(i32),
    /// A decimal value, kept as its source text.
    Float(String),
    String(String),
    Boolean(bool),
    Function(Function),
    BuiltIn(BuiltinFunction),
    Array(Vec<Objects>),
}

/// A user-defined function: its formal parameters and its body.
#[derive(Debug)]
pub struct Function {
    pub parameters: Vec<String>,
    pub body: Vec<Statement>,
}

/// A function provided by the interpreter, known by name.
#[derive(Debug)]
pub struct BuiltinFunction {
    pub name: String,
}

/// The mathematical value of a runtime value.
pub ghost enum ObjView {
    Integer(i32),
    Float(Seq<char>),
    String(Seq<char>),
    Boolean(bool),
    Function { parameters: Seq<Seq<char>>, body: Seq<StmtView> },
    BuiltIn(Seq<char>),
    Array(Seq<ObjView>),
}

pub open spec fn obj_view(o: Objects) -> ObjView
    decreases o,
{
    match o {
        Objects::Integer(n) => ObjView::Integer(n),
        Objects::Float(t) => ObjView::Float(t@),
        Objects::String(s) => ObjView::String(s@),
        Objects::Boolean(b) => ObjView::Boolean(b),
        Objects::Function(f) => ObjView::Function {
            parameters: names_view(f.parameters@),
            body: stmts_view(f.body@),
        },
        Objects::BuiltIn(b) => ObjView::BuiltIn(b.name@),
        Objects::Array(a) => ObjView::Array(objs_view(a@)),
    }
}

pub open spec fn objs_view(s: Seq<Objects>) -> Seq<ObjView>
    decreases s,
{
    if s.len() == 0 {
        Seq::empty()
    } else {
        objs_view(s.drop_last()).push(obj_view(s.last()))
    }
}

impl View for Objects {
    type V = ObjView;

    open spec fn view(&self) -> ObjView {
        obj_view(*self)
    }
}

pub proof fn lemma_objs_view(s: Seq<Objects>)
    ensures
        objs_view(s).len() == s.len(),
        forall|i: int| 0 <= i < s.len() ==> #[trigger] objs_view(s)[i] == obj_view(s[i]),
    decreases s.len(),
{
    if s.len() > 0 {
        lemma_objs_view(s.drop_last());
    }
}

/// A copy of a list of values.
pub fn copy_objects(v: &Vec<Objects>) -> (r: Vec<Objects>)
    ensures
        objs_view(r@) == objs_view(v@),
    decreases v,
{
    let mut out: Vec<Objects> = Vec::new();
    let mut i: usize = 0;
    while i < v.len()
        invariant
            i <= v.len(),
            objs_view(out@) == objs_view(v@.subrange(0, i as int)),
        decreases v.len() - i,
    {
        let o = v[i].copy();
        let ghost before = out@;
        out.push(o);
        assert(out@.drop_last() =~= before);
        assert(v@.subrange(0, i + 1).drop_last() =~= v@.subrange(0, i as int));
        i += 1;
    }
    assert(v@.subrange(0, v.len() as int) =~= v@);
    out
}

impl Objects {
    /// A copy of the value with the same view.
    pub fn copy(&self) -> (r: Objects)
        ensures
            r@ == self@,
        decreases self,
    {
        match self {
            Objects::Integer(n) => Objects::Integer(*n),
            Objects::Float(t) => Objects::Float(t.clone()),
            Objects::String(s) => Objects::String(s.clone()),
            Objects::Boolean(b) => Objects::Boolean(*b),
            Objects::Function(f) => Objects::Function(
                Function { parameters: copy_names(&f.parameters), body: copy_stmts(&f.body) },
            ),
            Objects::BuiltIn(b) => Objects::BuiltIn(BuiltinFunction { name: b.name.clone() }),
            Objects::Array(a) => Objects::Array(copy_objects(a)),
        }
    }
}

impl Function {
    pub fn new(parameters: Vec<String>, body: Vec<Statement>) -> (r: Function)
        ensures
            r.parameters == parameters,
            r.body == body,
    {
        Function { parameters, body }
    }
}

/// The name-to-value map that a sequence of entries stands for; a later
/// entry for a name overrides an earlier one.
pub open spec fn entries_map(s: Seq<(String, Objects)>) -> Map<Seq<char>, ObjView>
    decreases s.len(),
{
    if s.len() == 0 {
        Map::empty()
    } else {
        entries_map(s.drop_last()).insert(s.last().0@, s.last().1@)
    }
}

pub open spec fn keys_unique(s: Seq<(String, Objects)>) -> bool {
    forall|i: int, j: int| 0 <= i < j < s.len() ==> s[i].0@ != s[j].0@
}

pub proof fn lemma_entries_contains(s: Seq<(String, Objects)>, k: Seq<char>)
    ensures
        entries_map(s).contains_key(k) <==> exists|j: int| 0 <= j < s.len() && s[j].0@ == k,
    decreases s.len(),
{
    if s.len() > 0 {
        lemma_entries_contains(s.drop_last(), k);
        if entries_map(s.drop_last()).contains_key(k) {
            let j = choose|j: int| 0 <= j < s.drop_last().len() && s.drop_last()[j].0@ == k;
            assert(s[j].0@ == k);
        }
        if exists|j: int| 0 <= j < s.len() && s[j].0@ == k {
            let j = choose|j: int| 0 <= j < s.len() && s[j].0@ == k;
            if j < s.len() - 1 {
                assert(s.drop_last()[j].0@ == k);
            }
        }
    }
}

pub proof fn lemma_entries_value(s: Seq<(String, Objects)>, j: int)
    requires
        keys_unique(s),
        0 <= j < s.len(),
    ensures
        entries_map(s).contains_key(s[j].0@),
        entries_map(s)[s[j].0@] == s[j].1@,
    decreases s.len(),
{
    if j < s.len() - 1 {
        lemma_entries_value(s.drop_last(), j);
    }
}

pub proof fn lemma_entries_remove(s: Seq<(String, Objects)>, j: int)
    requires
        keys_unique(s),
        0 <= j < s.len(),
    ensures
        entries_map(s.remove(j)) == entries_map(s).remove(s[j].0@),
        keys_unique(s.remove(j)),
    decreases s.len(),
{
    let k = s[j].0@;
    let dl = s.drop_last();
    if j == s.len() - 1 {
        assert(s.remove(j) =~= dl);
        lemma_entries_contains(dl, k);
        assert(!entries_map(dl).contains_key(k));
        assert(entries_map(s).remove(k) =~= entries_map(dl));
    } else {
        lemma_entries_remove(dl, j);
        assert(s.remove(j) =~= dl.remove(j).push(s.last()));
        assert(s.remove(j).drop_last() =~= dl.remove(j));
        assert(entries_map(s.remove(j)) =~= entries_map(s).remove(k));
    }
}

/// The bindings of names to values.
#[derive(Debug)]
pub struct Environment {
    value: Vec<(String, Objects)>,
}

impl View for Environment {
    type V = Map<Seq<char>, ObjView>;

    closed spec fn view(&self) -> Map<Seq<char>, ObjView> {
        entries_map(self.value@)
    }
}

impl Environment {
    /// No two entries bind the same name.
    pub closed spec fn wf(&self) -> bool {
        keys_unique(self.value@)
    }

    pub fn new() -> (r: Environment)
        ensures
            r.wf(),
            r@ == Map::<Seq<char>, ObjView>::empty(),
    {
        Environment { value: Vec::new() }
    }

    fn position(&self, name: &String) -> (r: Option<usize>)
        requires
            self.wf(),
        ensures
            match r {
                Some(j) => j < self.value.len() && self.value@[j as int].0@ == name@,
                None => !self@.contains_key(name@),
            },
    {
        let mut j: usize = 0;
        while j < self.value.len()
            invariant
                j <= self.value.len(),
                forall|t: int| 0 <= t < j ==> self.value@[t].0@ != name@,
            decreases self.value.len() - j,
        {
            if self.value[j].0 == *name {
                return Some(j);
            }
            j += 1;
        }
        proof {
            lemma_entries_contains(self.value@, name@);
        }
        None
    }

    /// Binds `name` to `value`, replacing any earlier binding of it.
    pub fn add(&mut self, name: String, value: Objects)
        requires
            old(self).wf(),
        ensures
            final(self).wf(),
            final(self)@ == old(self)@.insert(name@, value@),
    {
        self.remove(name.clone());
        let ghost before = self.value@;
        self.value.push((name, value));
        proof {
            assert(self.value@.drop_last() =~= before);
            lemma_entries_contains(before, name@);
            assert forall|i: int, j: int| 0 <= i < j < self.value@.len() implies self.value@[i].0@
                != self.value@[j].0@ by {
                if j == self.value@.len() - 1 {
                    assert(before[i].0@ != name@);
                }
            }
            assert(self@ =~= old(self)@.insert(name@, value@));
        }
    }

    /// Removes the binding of `name`, if there is one.
    pub fn remove(&mut self, name: String)
        requires
            old(self).wf(),
        ensures
            final(self).wf(),
            final(self)@ == old(self)@.remove(name@),
    {
        match self.position(&name) {
            Some(j) => {
                proof {
                    lemma_entries_remove(self.value@, j as int);
                }
                self.value.remove(j);
            },
            None => {
                assert(self@.remove(name@) =~= self@);
            },
        }
    }

    /// The value bound to `name`, if any.
    pub fn search(&self, name: &String) -> (r: Option<Objects>)
        requires
            self.wf(),
        ensures
            match r {
                Some(v) => self@.contains_key(name@) && v@ == self@[name@],
                None => !self@.contains_key(name@),
            },
    {
        match self.position(name) {
            Some(j) => {
                proof {
                    lemma_entries_value(self.value@, j as int);
                }
                Some(self.value[j].1.copy())
            },
            None => None,
        }
    }
}

/// What a built-in does: the output afterwards and the result. `print`
/// appends its argument to the output and returns the empty string.
pub open spec fn builtin_call(name: Seq<char>, args: Seq<ObjView>, out: Seq<ObjView>) -> (
    Seq<ObjView>,
    Result<ObjView, EvalError>,
) {
    if name == "len"@ {
        (
            out,
            if args.len() != 1 {
                Err(EvalError::BuiltinArgs)
            } else {
                match args[0] {
                    ObjView::String(s) => if s.len() <= i32::MAX {
                        Ok(ObjView::Integer(s.len() as i32))
                    } else {
                        Err(EvalError::BuiltinArgs)
                    },
                    ObjView::Array(a) => if a.len() <= i32::MAX {
                        Ok(ObjView::Integer(a.len() as i32))
                    } else {
                        Err(EvalError::BuiltinArgs)
                    },
                    _ => Err(EvalError::BuiltinArgs),
                }
            },
        )
    } else if name == "first"@ {
        (
            out,
            if args.len() != 1 {
                Err(EvalError::BuiltinArgs)
            } else {
                match args[0] {
                    ObjView::String(s) => if s.len() > 0 {
                        Ok(ObjView::String(s.subrange(0, 1)))
                    } else {
                        Err(EvalError::BuiltinArgs)
                    },
                    ObjView::Array(a) => if a.len() > 0 {
                        Ok(a[0])
                    } else {
                        Err(EvalError::BuiltinArgs)
                    },
                    _ => Err(EvalError::BuiltinArgs),
                }
            },
        )
    } else if name == "last"@ {
        (
            out,
            if args.len() != 1 {
                Err(EvalError::BuiltinArgs)
            } else {
                match args[0] {
                    ObjView::String(s) => if s.len() > 0 {
                        Ok(ObjView::String(s.subrange(s.len() - 1, s.len() as int)))
                    } else {
                        Err(EvalError::BuiltinArgs)
                    },
                    ObjView::Array(a) => if a.len() > 0 {
                        Ok(a.last())
                    } else {
                        Err(EvalError::BuiltinArgs)
                    },
                    _ => Err(EvalError::BuiltinArgs),
                }
            },
        )
    } else if name == "push"@ {
        (
            out,
            if args.len() != 2 {
                Err(EvalError::BuiltinArgs)
            } else {
                match args[0] {
                    ObjView::Array(a) => Ok(ObjView::Array(a.push(args[1]))),
                    _ => Err(EvalError::BuiltinArgs),
                }
            },
        )
    } else if name == "print"@ {
        if args.len() != 1 {
            (out, Err(EvalError::BuiltinArgs))
        } else {
            (out.push(args[0]), Ok(ObjView::String(Seq::empty())))
        }
    } else {
        (out, Err(EvalError::BuiltinNotFound))
    }
}

/// The characters `i..j` of `s` as a string value.
fn text_slice(s: &String, i: usize, j: usize) -> (r: Objects)
    requires
        i <= j <= s@.len(),
    ensures
        r@ == ObjView::String(s@.subrange(i as int, j as int)),
{
    Objects::String(String::from_str(s.as_str().substring_char(i, j)))
}

impl BuiltinFunction {
    pub fn new(name: String) -> (r: BuiltinFunction)
        ensures
            r.name == name,
    {
        BuiltinFunction { name }
    }

    /// Runs the built-in on `args`; what `print` writes is appended to `output`.
    pub fn call(&self, args: Vec<Objects>, output: &mut Vec<Objects>) -> (r: Result<
        Objects,
        EvalError,
    >)
        ensures
            (objs_view(final(output)@), obj_result(r)) == builtin_call(
                self.name@,
                objs_view(args@),
                objs_view(old(output)@),
            ),
    {
        proof {
            lemma_objs_view(args@);
        }
        let name = self.name.as_str();
        if same_text(name, "len") {
            if args.len() != 1 {
                return Err(EvalError::BuiltinArgs);
            }
            match &args[0] {
                Objects::String(s) => {
                    let n = s.as_str().unicode_len();
                    if n <= i32::MAX as usize {
                        Ok(Objects::Integer(n as i32))
                    } else {
                        Err(EvalError::BuiltinArgs)
                    }
                },
                Objects::Array(a) => {
                    proof {
                        lemma_objs_view(a@);
                    }
                    if a.len() <= i32::MAX as usize {
                        Ok(Objects::Integer(a.len() as i32))
                    } else {
                        Err(EvalError::BuiltinArgs)
                    }
                },
                _ => Err(EvalError::BuiltinArgs),
            }
        } else if same_text(name, "first") {
            if args.len() != 1 {
                return Err(EvalError::BuiltinArgs);
            }
            match &args[0] {
                Objects::String(s) => {
                    let n = s.as_str().unicode_len();
                    if n > 0 {
                        Ok(text_slice(s, 0, 1))
                    } else {
                        Err(EvalError::BuiltinArgs)
                    }
                },
                Objects::Array(a) => {
                    proof {
                        lemma_objs_view(a@);
                    }
                    if a.len() > 0 {
                        Ok(a[0].copy())
                    } else {
                        Err(EvalError::BuiltinArgs)
                    }
                },
                _ => Err(EvalError::BuiltinArgs),
            }
        } else if same_text(name, "last") {
            if args.len() != 1 {
                return Err(EvalError::BuiltinArgs);
            }
            match &args[0] {
                Objects::String(s) => {
                    let n = s.as_str().unicode_len();
                    if n > 0 {
                        Ok(text_slice(s, n - 1, n))
                    } else {
                        Err(EvalError::BuiltinArgs)
                    }
                },
                Objects::Array(a) => {
                    proof {
                        lemma_objs_view(a@);
                    }
                    if a.len() > 0 {
                        Ok(a[a.len() - 1].copy())
                    } else {
                        Err(EvalError::BuiltinArgs)
                    }
                },
                _ => Err(EvalError::BuiltinArgs),
            }
        } else if same_text(name, "push") {
            if args.len() != 2 {
                return Err(EvalError::BuiltinArgs);
            }
            match &args[0] {
                Objects::Array(a) => {
                    let mut f = copy_objects(a);
                    let ghost before = f@;
                    f.push(args[1].copy());
                    proof {
                        assert(f@.drop_last() =~= before);
                    }
                    Ok(Objects::Array(f))
                },
                _ => Err(EvalError::BuiltinArgs),
            }
        } else if same_text(name, "print") {
            if args.len() != 1 {
                return Err(EvalError::BuiltinArgs);
            }
            let ghost before = output@;
            output.push(args[0].copy());
            proof {
                assert(output@.drop_last() =~= before);
            }
            let empty = String::new();
            Ok(Objects::String(empty))
        } else {
            Err(EvalError::BuiltinNotFound)
        }
    }
}

pub open spec fn obj_result(r: Result<Objects, EvalError>) -> Result<ObjView, EvalError> {
    match r {
        Ok(v) => Ok(v@),
        Err(e) => Err(e),
    }
}

} // verus!
