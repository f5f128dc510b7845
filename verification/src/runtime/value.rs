//! Values of Quern scripts and the records that hold them.
use vstd::prelude::*;
use crate::table::Table;
use crate::text::{copy_string, decimal, decimal_string, lit};


verus! {

/// A script value. A floating-point value is kept as the literal text it was read from
/// (its number is formatted where it is shown).
pub enum QuernValue {
    Null,
    Int(i64),
    Float(String),
    Str(String),
    Bool(bool),
    List(Vec<QuernValue>),
    /// Entries by key.
    Dict(Vec<(String, QuernValue)>),
    /// The name of a function.
    Function(String),
}

/// A value seen as mathematics.
pub enum ValueV {
    Null,
    Int(i64),
    Float(Seq<char>),
    Str(Seq<char>),
    Bool(bool),
    List(Seq<ValueV>),
    Dict(Seq<(Seq<char>, ValueV)>),
    Function(Seq<char>),
}

impl DeepView for QuernValue {
    type V = ValueV;

    open spec fn deep_view(&self) -> ValueV
        decreases self,
    {
        match self {
            QuernValue::Null => ValueV::Null,
            QuernValue::Int(i) => ValueV::Int(*i),
            QuernValue::Float(t) => ValueV::Float(t@),
            QuernValue::Str(s) => ValueV::Str(s@),
            QuernValue::Bool(b) => ValueV::Bool(*b),
            QuernValue::List(v) => ValueV::List(
                Seq::new(
                    v@.len(),
                    |i: int|
                        if 0 <= i < v@.len() {
                            v@[i].deep_view()
                        } else {
                            ValueV::Null
                        },
                ),
            ),
            QuernValue::Dict(t) => ValueV::Dict(
                Seq::new(
                    t@.len(),
                    |i: int|
                        if 0 <= i < t@.len() {
                            (t@[i].0@, t@[i].1.deep_view())
                        } else {
                            (Seq::empty(), ValueV::Null)
                        },
                ),
            ),
            QuernValue::Function(f) => ValueV::Function(f@),
        }
    }
}

proof fn lemma_same_list(a: Seq<QuernValue>, b: Seq<QuernValue>)
    requires
        a.len() == b.len(),
        forall|k: int| 0 <= k < a.len() ==> #[trigger] a[k].deep_view() == b[k].deep_view(),
    ensures
        forall|x: Vec<QuernValue>, y: Vec<QuernValue>| x@ == a && y@ == b ==>
            #[trigger] QuernValue::List(x).deep_view() == #[trigger] QuernValue::List(y).deep_view(),
{
    assert forall|x: Vec<QuernValue>, y: Vec<QuernValue>| x@ == a && y@ == b implies
        #[trigger] QuernValue::List(x).deep_view() == #[trigger] QuernValue::List(y).deep_view() by {
        reveal_with_fuel(<QuernValue as DeepView>::deep_view, 2);
        let p = QuernValue::List(x).deep_view()->List_0;
        let q = QuernValue::List(y).deep_view()->List_0;
        assert(p.len() == a.len());
        assert(q.len() == b.len());
        assert forall|k: int| 0 <= k < p.len() implies p[k] == q[k] by {
            assert(p[k] == a[k].deep_view());
            assert(q[k] == b[k].deep_view());
        }
        assert(p =~= q);
    }
}

proof fn lemma_same_dict(a: Seq<(String, QuernValue)>, b: Seq<(String, QuernValue)>)
    requires
        a.len() == b.len(),
        forall|k: int| 0 <= k < a.len() ==> #[trigger] a[k].0@ == b[k].0@ && a[k].1.deep_view() == b[k].1.deep_view(),
    ensures
        forall|x: Vec<(String, QuernValue)>, y: Vec<(String, QuernValue)>| x@ == a && y@ == b ==>
            #[trigger] QuernValue::Dict(x).deep_view() == #[trigger] QuernValue::Dict(y).deep_view(),
{
    assert forall|x: Vec<(String, QuernValue)>, y: Vec<(String, QuernValue)>| x@ == a && y@ == b implies
        #[trigger] QuernValue::Dict(x).deep_view() == #[trigger] QuernValue::Dict(y).deep_view() by {
        reveal_with_fuel(<QuernValue as DeepView>::deep_view, 2);
        let p = QuernValue::Dict(x).deep_view()->Dict_0;
        let q = QuernValue::Dict(y).deep_view()->Dict_0;
        assert(p.len() == a.len());
        assert(q.len() == b.len());
        assert forall|k: int| 0 <= k < p.len() implies p[k] == q[k] by {
            assert(p[k] == (a[k].0@, a[k].1.deep_view()));
            assert(q[k] == (b[k].0@, b[k].1.deep_view()));
        }
        assert(p =~= q);
    }
}

impl QuernValue {
    /// A copy of this value.
    pub fn duplicate(&self) -> (r: QuernValue)
        ensures
            r.deep_view() == self.deep_view(),
        decreases self,
    {
        match self {
            QuernValue::Null => QuernValue::Null,
            QuernValue::Int(i) => QuernValue::Int(*i),
            QuernValue::Float(t) => QuernValue::Float(copy_string(t)),
            QuernValue::Str(s) => QuernValue::Str(copy_string(s)),
            QuernValue::Bool(b) => QuernValue::Bool(*b),
            QuernValue::List(v) => {
                let mut r: Vec<QuernValue> = Vec::new();
                let mut i: usize = 0;
                #[verifier::loop_isolation(false)]
                while i < v.len()
                    invariant
                        i <= v@.len(),
                        r@.len() == i,
                        forall|k: int| 0 <= k < i ==> #[trigger] r@[k].deep_view() == v@[k].deep_view(),
                    decreases v@.len() - i,
                {
                    proof {
                        assert(decreases_to!(self => self->List_0));
                        assert(decreases_to!(self->List_0 => v@));
                        assert(decreases_to!(v@ => v@[i as int]));
                    }
                    r.push(v[i].duplicate());
                    i = i + 1;
                }
                proof {
                    lemma_same_list(r@, v@);
                }
                QuernValue::List(r)
            },
            QuernValue::Dict(t) => {
                let mut r: Vec<(String, QuernValue)> = Vec::new();
                let mut i: usize = 0;
                #[verifier::loop_isolation(false)]
                while i < t.len()
                    invariant
                        i <= t@.len(),
                        r@.len() == i,
                        forall|k: int| 0 <= k < i ==> #[trigger] r@[k].0@ == t@[k].0@ && r@[k].1.deep_view() == t@[k].1.deep_view(),
                    decreases t@.len() - i,
                {
                    proof {
                        assert(decreases_to!(self => self->Dict_0));
                        assert(decreases_to!(self->Dict_0 => t@));
                        assert(decreases_to!(t@ => t@[i as int]));
                        assert(decreases_to!(t@[i as int] => t@[i as int].1));
                    }
                    r.push((copy_string(&t[i].0), t[i].1.duplicate()));
                    i = i + 1;
                }
                proof {
                    lemma_same_dict(r@, t@);
                }
                QuernValue::Dict(r)
            },
            QuernValue::Function(f) => QuernValue::Function(copy_string(f)),
        }
    }
}

/// The decimal numeral of an integer, with a `-` before a negative one.
pub open spec fn int_decimal(i: int) -> Seq<char> {
    if i < 0 {
        "-"@ + decimal((-i) as nat)
    } else {
        decimal(i as nat)
    }
}

/// How a value that is not a floating-point number is shown: `null`, the integer's
/// numeral, the text, `true` or `false`, `[List]`, `[Dict]`, or `<Fn: name>`.
pub open spec fn shown(v: ValueV) -> Seq<char> {
    match v {
        ValueV::Null => "null"@,
        ValueV::Int(i) => int_decimal(i as int),
        ValueV::Float(t) => t,
        ValueV::Str(s) => s,
        ValueV::Bool(b) => if b {
            "true"@
        } else {
            "false"@
        },
        ValueV::List(_) => "[List]"@,
        ValueV::Dict(_) => "[Dict]"@,
        ValueV::Function(n) => "<Fn: "@ + n + ">"@,
    }
}

/// The decimal numeral of `i` (see `int_decimal`).
pub fn i64_decimal(i: i64) -> (r: String)
    ensures
        r@ == int_decimal(i as int),
{
    if i < 0 {
        let m: u64 = if i == i64::MIN { 9223372036854775808u64 } else { (0 - i) as u64 };
        let mut r = lit("-");
        let d = decimal_string(m);
        r.append(d.as_str());
        r
    } else {
        decimal_string(i as u64)
    }
}

impl QuernValue {
    /// How the value is shown (see `shown`); `None` for a floating-point number, whose
    /// numeral is formatted from its text where it is printed.
    pub fn display(&self) -> (r: Option<String>)
        ensures
            r is None <==> self is Float,
            r matches Some(t) ==> t@ == shown(self.deep_view()),
    {
        match self {
            QuernValue::Null => Some(lit("null")),
            QuernValue::Int(i) => Some(i64_decimal(*i)),
            QuernValue::Float(_) => None,
            QuernValue::Str(s) => Some(copy_string(s)),
            QuernValue::Bool(b) => Some(if *b { lit("true") } else { lit("false") }),
            QuernValue::List(_) => Some(lit("[List]")),
            QuernValue::Dict(_) => Some(lit("[Dict]")),
            QuernValue::Function(n) => {
                let mut r = lit("<Fn: ");
                r.append(n.as_str());
                r.append(">");
                Some(r)
            },
        }
    }
}

/// A copy of a list of values.
pub fn duplicate_values(v: &Vec<QuernValue>) -> (r: Vec<QuernValue>)
    ensures
        r.deep_view() == v.deep_view(),
{
    let mut r: Vec<QuernValue> = Vec::new();
    let mut i: usize = 0;
    while i < v.len()
        invariant
            i <= v@.len(),
            r@.len() == i,
            forall|k: int| 0 <= k < i ==> #[trigger] r@[k].deep_view() == v@[k].deep_view(),
        decreases v@.len() - i,
    {
        r.push(v[i].duplicate());
        i = i + 1;
    }
    assert(r.deep_view() =~= v.deep_view());
    r
}

/// A copy of a dictionary.
pub fn duplicate_dict(t: &Table<QuernValue>) -> (r: Table<QuernValue>)
    requires
        t.wf(),
    ensures
        r.wf(),
        r@ == t@,
{
    let mut r: Table<QuernValue> = Table::new();
    let mut i: usize = 0;
    while i < t.len()
        invariant
            i <= t.size(),
            t.wf(),
            r.wf(),
            forall|k: Seq<char>| #[trigger] r@.dom().contains(k) <==> exists|j: int| 0 <= j < i && t.key_at(j) == k,
            forall|j: int| 0 <= j < i ==> #[trigger] r@[t.key_at(j)] == t.value_at(j),
        decreases t.size() - i,
    {
        let k = copy_string(t.key(i));
        let v = t.value(i).duplicate();
        proof {
            assert forall|j: int| 0 <= j < i implies t.key_at(j) != t.key_at(i as int) by {
                t.lemma_distinct(j, i as int);
            }
        }
        r.insert(k, v);
        i = i + 1;
    }
    proof {
        assert forall|k: Seq<char>| #[trigger] r@.dom().contains(k) <==> t@.dom().contains(k) by {
            if t@.dom().contains(k) {
                let j = t.lemma_key(k);
            }
            if r@.dom().contains(k) {
                let j = choose|j: int| 0 <= j < t.size() && t.key_at(j) == k;
                t.lemma_entry(j);
            }
        }
        assert forall|k: Seq<char>| #[trigger] r@.dom().contains(k) implies r@[k] == t@[k] by {
            let j = t.lemma_key(k);
            t.lemma_entry(j);
        }
        assert(r@ =~= t@);
    }
    r
}

/// Why a step of a script stopped: an error the script reports, or a fault, where the
/// interpreter panics (for instance on a lone `"` read as quoted text).
pub enum Failure {
    Error(String),
    Fault(String),
}

/// A failure seen as text.
pub enum FailureV {
    Error(Seq<char>),
    Fault(Seq<char>),
}

impl View for Failure {
    type V = FailureV;

    open spec fn view(&self) -> FailureV {
        match self {
            Failure::Error(e) => FailureV::Error(e@),
            Failure::Fault(e) => FailureV::Fault(e@),
        }
    }
}

/// Who may read a variable.
#[derive(Clone, Copy, Debug, PartialEq, Eq, Structural)]
pub enum AccessLevel {
    /// Only from the function on top of the call stack.
    Private,
    /// From anywhere.
    Public,
    /// Only from the current scope (the function on top of the call stack).
    Default,
}

/// A named value with its access level.
pub struct Variable {
    pub name: String,
    pub value: QuernValue,
    pub access: AccessLevel,
}

impl DeepView for Variable {
    type V = (Seq<char>, ValueV, AccessLevel);

    open spec fn deep_view(&self) -> (Seq<char>, ValueV, AccessLevel) {
        (self.name@, self.value.deep_view(), self.access)
    }
}

/// A class: the variables, lists and dictionaries that `Template <name>` defines.
pub struct ClassTemplate {
    pub name: String,
    pub variables: Table<QuernValue>,
    pub lists: Table<Vec<QuernValue>>,
    pub dicts: Table<Table<QuernValue>>,
}

impl ClassTemplate {
    /// Its tables keep their names distinct.
    pub open spec fn wf(&self) -> bool {
        &&& self.variables.wf()
        &&& self.lists.wf()
        &&& self.dicts.wf()
        &&& forall|i: int| 0 <= i < self.dicts.size() ==> (#[trigger] self.dicts.item_at(i)).wf()
    }
}

/// A class seen as values.
pub struct ClassV {
    pub name: Seq<char>,
    pub variables: Map<Seq<char>, ValueV>,
    pub lists: Map<Seq<char>, Seq<ValueV>>,
    pub dicts: Map<Seq<char>, Map<Seq<char>, ValueV>>,
}

impl DeepView for ClassTemplate {
    type V = ClassV;

    open spec fn deep_view(&self) -> ClassV {
        ClassV {
            name: self.name@,
            variables: self.variables.view(),
            lists: self.lists.view(),
            dicts: self.dicts.view(),
        }
    }
}

/// A function of a script: its parameters, its body lines and its access level.
pub struct FunctionDef {
    pub name: String,
    pub params: Vec<String>,
    pub body: Vec<String>,
    pub access: AccessLevel,
}

/// A function seen as values.
pub struct FunctionV {
    pub name: Seq<char>,
    pub params: Seq<Seq<char>>,
    pub body: Seq<Seq<char>>,
    pub access: AccessLevel,
}

impl DeepView for FunctionDef {
    type V = FunctionV;

    open spec fn deep_view(&self) -> FunctionV {
        FunctionV {
            name: self.name@,
            params: self.params.deep_view(),
            body: self.body.deep_view(),
            access: self.access,
        }
    }
}

} // verus!
