//! The scope a script runs in: its variables, lists, dictionaries, classes, functions and
//! aliases, the call stack, and the rules for reading and defining variables.
use vstd::prelude::*;
use std::sync::Arc;
use crate::config::QuernConfig;
use crate::logging::{Logger, TraceContext, is_v4_uuid_text, is_timestamp_text};
use crate::table::Table;
use crate::text::{to_chars, chars_start_with, starts_with, lit, copy_string, str_is};
use crate::runtime::value::{
    QuernValue, ValueV, AccessLevel, Variable, ClassTemplate, FunctionDef, duplicate_values,
    duplicate_dict,
};

verus! {

broadcast use vstd::string::group_string_axioms;

/// A variable seen as values: its name, its value and its access level.
pub type VarV = (Seq<char>, ValueV, AccessLevel);

/// The state of a running script.
pub struct ExecutionContext {
    pub variables: Table<Variable>,
    pub lists: Table<Vec<QuernValue>>,
    pub dicts: Table<Table<QuernValue>>,
    pub classes: Table<ClassTemplate>,
    pub functions: Table<FunctionDef>,
    pub aliases: Table<String>,
    pub logger: Arc<Logger>,
    pub trace: TraceContext,
    pub config: Arc<QuernConfig>,
    /// The functions being run, innermost last.
    pub call_stack: Vec<String>,
}

/// A result without a value, its error seen as text.
pub open spec fn unit_result(r: Result<(), String>) -> Result<(), Seq<char>> {
    match r {
        Ok(()) => Ok(()),
        Err(e) => Err(e@),
    }
}

/// The message of an access refused to a private variable.
pub open spec fn private_denied(name: Seq<char>, scope: Seq<char>) -> Seq<char> {
    "Private variable '"@ + name + "' access denied in function '"@ + scope + "'"@
}

/// The message of an access refused to a variable of another scope.
pub open spec fn other_scope(name: Seq<char>) -> Seq<char> {
    "Variable '"@ + name + "' is local to another scope"@
}

/// The message for a variable that does not exist.
pub open spec fn var_not_found(name: Seq<char>) -> Seq<char> {
    "Variable '"@ + name + "' not found"@
}

/// The message for a class template that does not exist.
pub open spec fn class_not_found(name: Seq<char>) -> Seq<char> {
    "Class template '"@ + name + "' not found"@
}

/// The message of a refused definition of a system variable.
pub open spec fn system_denied() -> Seq<char> {
    "Access to system variables denied"@
}

/// The variables of `m` with the first `n` variables of a class template defined over them
/// at `Default` access, as `Template` defines them one after the other.
pub open spec fn with_template_vars(m: Map<Seq<char>, VarV>, t: Table<QuernValue>, n: int) -> Map<
    Seq<char>,
    VarV,
> {
    Map::new(
        |k: Seq<char>| m.dom().contains(k) || exists|j: int| 0 <= j < n && t.key_at(j) == k,
        |k: Seq<char>|
            if exists|j: int| 0 <= j < n && t.key_at(j) == k {
                (k, t@[k], AccessLevel::Default)
            } else {
                m[k]
            },
    )
}

/// `m` with the first `n` entries of `t` put over it.
pub open spec fn with_first<X: DeepView>(m: Map<Seq<char>, X::V>, t: Table<X>, n: int) -> Map<Seq<char>, X::V> {
    Map::new(
        |k: Seq<char>| m.dom().contains(k) || exists|j: int| 0 <= j < n && t.key_at(j) == k,
        |k: Seq<char>|
            if exists|j: int| 0 <= j < n && t.key_at(j) == k {
                t@[k]
            } else {
                m[k]
            },
    )
}

/// Putting all the entries of a table over a map gives their union, the table winning.
proof fn lemma_with_all<X: DeepView>(m: Map<Seq<char>, X::V>, t: Table<X>)
    requires
        t.wf(),
    ensures
        with_first(m, t, t.size() as int) == m.union_prefer_right(t@),
{
    let a = with_first(m, t, t.size() as int);
    let b = m.union_prefer_right(t@);
    assert forall|k: Seq<char>| #[trigger] a.dom().contains(k) <==> b.dom().contains(k) by {
        if t@.dom().contains(k) {
            let j = t.lemma_key(k);
        }
        if exists|j: int| 0 <= j < t.size() && t.key_at(j) == k {
            let j = choose|j: int| 0 <= j < t.size() && t.key_at(j) == k;
            t.lemma_entry(j);
        }
    }
    assert forall|k: Seq<char>| #[trigger] a.dom().contains(k) implies a[k] == b[k] by {
        if t@.dom().contains(k) {
            let j = t.lemma_key(k);
        }
        if exists|j: int| 0 <= j < t.size() && t.key_at(j) == k {
            let j = choose|j: int| 0 <= j < t.size() && t.key_at(j) == k;
            t.lemma_entry(j);
        }
    }
    assert(a =~= b);
}

/// One more entry of `t` put over `m`.
proof fn lemma_with_next<X: DeepView>(m: Map<Seq<char>, X::V>, t: Table<X>, n: int)
    requires
        t.wf(),
        0 <= n < t.size(),
    ensures
        with_first(m, t, n).insert(t.key_at(n), t.value_at(n)) == with_first(m, t, n + 1),
{
    t.lemma_entry(n);
    let a = with_first(m, t, n).insert(t.key_at(n), t.value_at(n));
    let b = with_first(m, t, n + 1);
    assert forall|k: Seq<char>| #[trigger] a.dom().contains(k) <==> b.dom().contains(k) by {
        if exists|j: int| 0 <= j < n + 1 && t.key_at(j) == k {
            let j = choose|j: int| 0 <= j < n + 1 && t.key_at(j) == k;
            if j < n {
                assert(exists|j: int| 0 <= j < n && t.key_at(j) == k);
            }
        }
        if exists|j: int| 0 <= j < n && t.key_at(j) == k {
            let j = choose|j: int| 0 <= j < n && t.key_at(j) == k;
            assert(0 <= j < n + 1 && t.key_at(j) == k);
        }
    }
    assert forall|k: Seq<char>| #[trigger] a.dom().contains(k) implies a[k] == b[k] by {
        if k != t.key_at(n) {
            if exists|j: int| 0 <= j < n + 1 && t.key_at(j) == k {
                let j = choose|j: int| 0 <= j < n + 1 && t.key_at(j) == k;
                assert(0 <= j < n && t.key_at(j) == k);
            }
            if exists|j: int| 0 <= j < n && t.key_at(j) == k {
                let j = choose|j: int| 0 <= j < n && t.key_at(j) == k;
                assert(0 <= j < n + 1 && t.key_at(j) == k);
            }
        } else {
            assert(0 <= n < n + 1 && t.key_at(n) == k);
        }
    }
    assert(a =~= b);
}

/// One more variable of a class template defined over `m`.
proof fn lemma_template_next(m: Map<Seq<char>, VarV>, t: Table<QuernValue>, n: int)
    requires
        t.wf(),
        0 <= n < t.size(),
    ensures
        with_template_vars(m, t, n).insert(t.key_at(n), (t.key_at(n), t.value_at(n), AccessLevel::Default))
            == with_template_vars(m, t, n + 1),
{
    t.lemma_entry(n);
    let a = with_template_vars(m, t, n).insert(t.key_at(n), (t.key_at(n), t.value_at(n), AccessLevel::Default));
    let b = with_template_vars(m, t, n + 1);
    assert forall|k: Seq<char>| #[trigger] a.dom().contains(k) <==> b.dom().contains(k) by {
        if exists|j: int| 0 <= j < n + 1 && t.key_at(j) == k {
            let j = choose|j: int| 0 <= j < n + 1 && t.key_at(j) == k;
            if j < n {
                assert(exists|j: int| 0 <= j < n && t.key_at(j) == k);
            }
        }
        if exists|j: int| 0 <= j < n && t.key_at(j) == k {
            let j = choose|j: int| 0 <= j < n && t.key_at(j) == k;
            assert(0 <= j < n + 1 && t.key_at(j) == k);
        }
    }
    assert forall|k: Seq<char>| #[trigger] a.dom().contains(k) implies a[k] == b[k] by {
        if k != t.key_at(n) {
            if exists|j: int| 0 <= j < n + 1 && t.key_at(j) == k {
                let j = choose|j: int| 0 <= j < n + 1 && t.key_at(j) == k;
                assert(0 <= j < n && t.key_at(j) == k);
            }
            if exists|j: int| 0 <= j < n && t.key_at(j) == k {
                let j = choose|j: int| 0 <= j < n && t.key_at(j) == k;
                assert(0 <= j < n + 1 && t.key_at(j) == k);
            }
        } else {
            assert(0 <= n < n + 1 && t.key_at(n) == k);
        }
    }
    assert(a =~= b);
}

impl ExecutionContext {
    /// The tables keep their names distinct, and each variable is stored under its own name.
    pub open spec fn wf(&self) -> bool {
        &&& self.variables.wf()
        &&& self.lists.wf()
        &&& self.dicts.wf()
        &&& self.classes.wf()
        &&& self.functions.wf()
        &&& self.aliases.wf()
        &&& forall|k: Seq<char>| #[trigger] self.variables@.dom().contains(k) ==> self.variables@[k].0 == k
        &&& forall|i: int| 0 <= i < self.classes.size() ==> (#[trigger] self.classes.item_at(i)).wf()
    }

    /// Whether a definition of `name` is refused: names that start with `__` are system
    /// variables, and they are refused when the sandbox is off.
    pub open spec fn refuses(&self, name: Seq<char>) -> bool {
        !self.config.security.enable_sandbox && starts_with(name, "__"@)
    }

    /// Whether `scope` is the function on top of the call stack.
    pub open spec fn in_scope(&self, scope: Seq<char>) -> bool {
        self.call_stack@.len() > 0 && self.call_stack@.last()@ == scope
    }

    /// What reading `name` from the function `scope` gives: the value, or the message of
    /// the refusal. Public variables are read from anywhere; private and scope-local ones
    /// only when `scope` is the function on top of the call stack.
    pub open spec fn lookup(&self, name: Seq<char>, scope: Seq<char>) -> Result<ValueV, Seq<char>> {
        if self.variables@.dom().contains(name) {
            let var = self.variables@[name];
            match var.2 {
                AccessLevel::Public => Ok(var.1),
                AccessLevel::Private => if self.in_scope(scope) {
                    Ok(var.1)
                } else {
                    Err(private_denied(name, scope))
                },
                AccessLevel::Default => if self.in_scope(scope) {
                    Ok(var.1)
                } else {
                    Err(other_scope(name))
                },
            }
        } else {
            Err(var_not_found(name))
        }
    }

    /// `post` is `pre` with only its variables changed, to `vars`.
    pub open spec fn with_variables(pre: &Self, post: &Self, vars: Map<Seq<char>, VarV>) -> bool {
        &&& post.variables@ == vars
        &&& post.variables.wf()
        &&& post.lists == pre.lists
        &&& post.dicts == pre.dicts
        &&& post.classes == pre.classes
        &&& post.functions == pre.functions
        &&& post.aliases == pre.aliases
        &&& post.logger == pre.logger
        &&& post.trace == pre.trace
        &&& post.config == pre.config
        &&& post.call_stack == pre.call_stack
    }

    /// `post` is `pre` after `name` was defined as `value` with `access`.
    pub open spec fn defines(pre: &Self, post: &Self, name: Seq<char>, value: ValueV, access: AccessLevel) -> bool {
        Self::with_variables(pre, post, pre.variables@.insert(name, (name, value, access)))
    }

    /// A fresh scope with no variables, lists, dictionaries, classes, functions or aliases,
    /// an empty call stack and a new trace.
    pub fn new(logger: Arc<Logger>, config: Arc<QuernConfig>) -> (r: Self)
        ensures
            r.wf(),
            r.variables@ == Map::<Seq<char>, VarV>::empty(),
            r.lists@ == Map::<Seq<char>, Seq<ValueV>>::empty(),
            r.dicts@ == Map::<Seq<char>, Map<Seq<char>, ValueV>>::empty(),
            r.classes@ == Map::<Seq<char>, crate::runtime::value::ClassV>::empty(),
            r.classes.size() == 0,
            r.functions@ == Map::<Seq<char>, crate::runtime::value::FunctionV>::empty(),
            r.functions.size() == 0,
            r.aliases@ == Map::<Seq<char>, Seq<char>>::empty(),
            r.logger == logger,
            r.config == config,
            r.call_stack@.len() == 0,
            is_v4_uuid_text(r.trace.trace_id@),
            is_timestamp_text(r.trace.timestamp@),
    {
        ExecutionContext {
            variables: Table::new(),
            lists: Table::new(),
            dicts: Table::new(),
            classes: Table::new(),
            functions: Table::new(),
            aliases: Table::new(),
            logger,
            trace: TraceContext::new(),
            config,
            call_stack: Vec::new(),
        }
    }

    /// Defines (or redefines) the variable `name`. A name that starts with `__` is refused
    /// when the sandbox is off, and nothing changes.
    pub fn define_var(&mut self, name: &str, value: QuernValue, access: AccessLevel) -> (r: Result<(), String>)
        requires
            old(self).wf(),
        ensures
            final(self).wf(),
            r is Err <==> old(self).refuses(name@),
            r matches Err(e) ==> e@ == system_denied() && *final(self) == *old(self),
            r is Ok ==> Self::defines(old(self), final(self), name@, value.deep_view(), access),
    {
        let chars = to_chars(name);
        let prefix = to_chars("__");
        if !self.config.security.enable_sandbox && chars_start_with(chars.as_slice(), prefix.as_slice()) {
            return Err(lit("Access to system variables denied"));
        }
        let ghost vv = value.deep_view();
        let var = Variable { name: name.to_string(), value, access };
        self.variables.insert(name.to_string(), var);
        proof {
            assert forall|k: Seq<char>| #[trigger] self.variables@.dom().contains(k) implies self.variables@[k].0 == k by {
                if k != name@ {
                    assert(old(self).variables@.dom().contains(k));
                }
            }
        }
        Ok(())
    }

    /// Whether `scope` is the function on top of the call stack.
    fn scope_is(&self, scope: &str) -> (r: bool)
        ensures
            r == self.in_scope(scope@),
    {
        match self.call_stack.last() {
            Some(top) => str_is(top.as_str(), scope),
            None => false,
        }
    }

    /// Reads the variable `name` from the function `scope` (see `lookup`).
    pub fn get_var(&self, name: &str, current_scope_fn: &str) -> (r: Result<&QuernValue, String>)
        requires
            self.wf(),
        ensures
            r matches Ok(v) ==> self.lookup(name@, current_scope_fn@) == Ok::<ValueV, Seq<char>>(v.deep_view()),
            r matches Err(e) ==> self.lookup(name@, current_scope_fn@) == Err::<ValueV, Seq<char>>(e@),
    {
        let key = name.to_string();
        match self.variables.find(&key) {
            Some(i) => {
                proof {
                    self.variables.lemma_entry(i as int);
                }
                let var = self.variables.value(i);
                match var.access {
                    AccessLevel::Public => Ok(&var.value),
                    AccessLevel::Private => {
                        if self.scope_is(current_scope_fn) {
                            Ok(&var.value)
                        } else {
                            let mut m = lit("Private variable '");
                            m.append(name);
                            m.append("' access denied in function '");
                            m.append(current_scope_fn);
                            m.append("'");
                            Err(m)
                        }
                    },
                    AccessLevel::Default => {
                        if self.scope_is(current_scope_fn) {
                            Ok(&var.value)
                        } else {
                            let mut m = lit("Variable '");
                            m.append(name);
                            m.append("' is local to another scope");
                            Err(m)
                        }
                    },
                }
            },
            None => {
                let mut m = lit("Variable '");
                m.append(name);
                m.append("' not found");
                Err(m)
            },
        }
    }

    /// The class template named `name`.
    pub open spec fn template(&self, name: Seq<char>) -> ClassTemplate {
        self.classes.item_at(choose|i: int| 0 <= i < self.classes.size() && self.classes.key_at(i) == name)
    }

    /// The position of the first variable of `t`, from `j` on, whose definition is refused,
    /// or the size of `t` when there is none.
    pub open spec fn first_refused(&self, t: Table<QuernValue>, j: int) -> int
        decreases t.size() - j,
    {
        if j >= t.size() || j < 0 {
            t.size() as int
        } else if self.refuses(t.key_at(j)) {
            j
        } else {
            self.first_refused(t, j + 1)
        }
    }

    /// `post` is `pre` after the class template `name` was applied, with the result `r`
    /// (see `apply_template`).
    pub open spec fn applies_template(pre: &Self, post: &Self, name: Seq<char>, r: Result<(), Seq<char>>) -> bool {
        if !pre.classes@.dom().contains(name) {
            r == Err::<(), Seq<char>>(class_not_found(name)) && *post == *pre
        } else {
            let t = pre.template(name);
            let n = pre.first_refused(t.variables, 0);
            if n < t.variables.size() {
                &&& r == Err::<(), Seq<char>>(system_denied())
                &&& Self::with_variables(pre, post, with_template_vars(pre.variables@, t.variables, n))
            } else {
                &&& r is Ok
                &&& post.variables@ == with_template_vars(pre.variables@, t.variables, n)
                &&& post.lists@ == pre.lists@.union_prefer_right(t.lists@)
                &&& post.dicts@ == pre.dicts@.union_prefer_right(t.dicts@)
                &&& post.classes == pre.classes
                &&& post.functions == pre.functions
                &&& post.aliases == pre.aliases
                &&& post.logger == pre.logger
                &&& post.trace == pre.trace
                &&& post.config == pre.config
                &&& post.call_stack == pre.call_stack
            }
        }
    }

    /// Defines the variables, lists and dictionaries of the class template `template_name`:
    /// its variables one after the other at `Default` access, then its lists, then its
    /// dictionaries. A missing template is an error and changes nothing. A refused variable
    /// name (see `refuses`) stops the work there, with the variables before it defined.
    pub fn apply_template(&mut self, template_name: &str) -> (r: Result<(), String>)
        requires
            old(self).wf(),
        ensures
            final(self).wf(),
            Self::applies_template(old(self), final(self), template_name@, unit_result(r)),
    {
        let key = template_name.to_string();
        let ci = match self.classes.find(&key) {
            Some(i) => i,
            None => {
                let mut m = lit("Class template '");
                m.append(template_name);
                m.append("' not found");
                return Err(m);
            },
        };
        let ghost t = self.classes.item_at(ci as int);
        proof {
            assert(old(self).template(template_name@) == t) by {
                let j = choose|i: int| 0 <= i < self.classes.size() && self.classes.key_at(i) == template_name@;
                if j != ci {
                    self.classes.lemma_distinct(j, ci as int);
                }
            }
            assert(t.wf());
        }
        let ghost pre = *old(self);
        assert(with_template_vars(pre.variables@, t.variables, 0) =~= pre.variables@);
        let nv = self.classes.value(ci).variables.len();
        let mut i: usize = 0;
        while i < nv
            invariant
                self.wf(),
                t.wf(),
                nv == t.variables.size(),
                i <= nv,
                0 <= ci < self.classes.size(),
                self.classes == pre.classes,
                self.classes.item_at(ci as int) == t,
                pre == *old(self),
                pre.classes@.dom().contains(template_name@),
                pre.template(template_name@) == t,
                pre.first_refused(t.variables, 0) == pre.first_refused(t.variables, i as int),
                Self::with_variables(&pre, self, with_template_vars(pre.variables@, t.variables, i as int)),
            decreases nv - i,
        {
            let k = copy_string(self.classes.value(ci).variables.key(i));
            let v = self.classes.value(ci).variables.value(i).duplicate();
            proof {
                t.variables.lemma_entry(i as int);
            }
            match self.define_var(k.as_str(), v, AccessLevel::Default) {
                Err(e) => {
                    return Err(e);
                },
                Ok(()) => {},
            }
            proof {
                lemma_template_next(pre.variables@, t.variables, i as int);
            }
            i = i + 1;
        }
        let nl = self.classes.value(ci).lists.len();
        let mut i: usize = 0;
        while i < nl
            invariant
                self.wf(),
                t.wf(),
                nl == t.lists.size(),
                i <= nl,
                0 <= ci < self.classes.size(),
                self.classes == pre.classes,
                self.classes.item_at(ci as int) == t,
                self.variables@ == with_template_vars(pre.variables@, t.variables, t.variables.size() as int),
                self.lists@ == with_first(pre.lists@, t.lists, i as int),
                self.dicts == pre.dicts,
                self.functions == pre.functions,
                self.aliases == pre.aliases,
                self.logger == pre.logger,
                self.trace == pre.trace,
                self.config == pre.config,
                self.call_stack == pre.call_stack,
            decreases nl - i,
        {
            let k = copy_string(self.classes.value(ci).lists.key(i));
            let v = duplicate_values(self.classes.value(ci).lists.value(i));
            self.define_list(k.as_str(), v);
            proof {
                lemma_with_next(pre.lists@, t.lists, i as int);
            }
            i = i + 1;
        }
        let nd = self.classes.value(ci).dicts.len();
        let mut i: usize = 0;
        while i < nd
            invariant
                self.wf(),
                t.wf(),
                nd == t.dicts.size(),
                i <= nd,
                0 <= ci < self.classes.size(),
                self.classes == pre.classes,
                self.classes.item_at(ci as int) == t,
                self.variables@ == with_template_vars(pre.variables@, t.variables, t.variables.size() as int),
                self.lists@ == with_first(pre.lists@, t.lists, t.lists.size() as int),
                self.dicts@ == with_first(pre.dicts@, t.dicts, i as int),
                self.functions == pre.functions,
                self.aliases == pre.aliases,
                self.logger == pre.logger,
                self.trace == pre.trace,
                self.config == pre.config,
                self.call_stack == pre.call_stack,
            decreases nd - i,
        {
            let k = copy_string(self.classes.value(ci).dicts.key(i));
            let v = duplicate_dict(self.classes.value(ci).dicts.value(i));
            self.define_dict(k.as_str(), v);
            proof {
                lemma_with_next(pre.dicts@, t.dicts, i as int);
            }
            i = i + 1;
        }
        proof {
            lemma_with_all(pre.lists@, t.lists);
            lemma_with_all(pre.dicts@, t.dicts);
        }
        Ok(())
    }

    /// Defines (or replaces) the list `name`.
    pub fn define_list(&mut self, name: &str, items: Vec<QuernValue>)
        requires
            old(self).wf(),
        ensures
            final(self).wf(),
            final(self).lists@ == old(self).lists@.insert(name@, items.deep_view()),
            final(self).variables == old(self).variables,
            final(self).dicts == old(self).dicts,
            final(self).classes == old(self).classes,
            final(self).functions == old(self).functions,
            final(self).aliases == old(self).aliases,
            final(self).logger == old(self).logger,
            final(self).trace == old(self).trace,
            final(self).config == old(self).config,
            final(self).call_stack == old(self).call_stack,
    {
        self.lists.insert(name.to_string(), items);
    }

    /// Defines (or replaces) the dictionary `name`.
    pub fn define_dict(&mut self, name: &str, items: Table<QuernValue>)
        requires
            old(self).wf(),
        ensures
            final(self).wf(),
            final(self).dicts@ == old(self).dicts@.insert(name@, items@),
            final(self).variables == old(self).variables,
            final(self).lists == old(self).lists,
            final(self).classes == old(self).classes,
            final(self).functions == old(self).functions,
            final(self).aliases == old(self).aliases,
            final(self).logger == old(self).logger,
            final(self).trace == old(self).trace,
            final(self).config == old(self).config,
            final(self).call_stack == old(self).call_stack,
    {
        self.dicts.insert(name.to_string(), items);
    }
}

/// A variable read back after it was defined gives the value it was defined with: from
/// anywhere when it is public, and from the function on top of the call stack when it is
/// private or local to the scope; from elsewhere the read is refused with its message.
pub proof fn law_read_after_define(
    pre: &ExecutionContext,
    post: &ExecutionContext,
    name: Seq<char>,
    value: ValueV,
    access: AccessLevel,
    scope: Seq<char>,
)
    requires
        ExecutionContext::defines(pre, post, name, value, access),
    ensures
        access == AccessLevel::Public ==> post.lookup(name, scope) == Ok::<ValueV, Seq<char>>(value),
        access != AccessLevel::Public && post.in_scope(scope) ==> post.lookup(name, scope) == Ok::<ValueV, Seq<char>>(value),
        access == AccessLevel::Private && !post.in_scope(scope) ==> post.lookup(name, scope) == Err::<ValueV, Seq<char>>(
            private_denied(name, scope),
        ),
        access == AccessLevel::Default && !post.in_scope(scope) ==> post.lookup(name, scope) == Err::<ValueV, Seq<char>>(
            other_scope(name),
        ),
{
}

/// Defining one variable leaves what every other name reads unchanged.
pub proof fn law_define_keeps_others(
    pre: &ExecutionContext,
    post: &ExecutionContext,
    name: Seq<char>,
    value: ValueV,
    access: AccessLevel,
    other: Seq<char>,
    scope: Seq<char>,
)
    requires
        ExecutionContext::defines(pre, post, name, value, access),
        other != name,
    ensures
        post.lookup(other, scope) == pre.lookup(other, scope),
{
}

/// A fresh scope has no variables: every read says the variable is not found.
pub proof fn law_fresh_scope_is_empty(ctx: &ExecutionContext, name: Seq<char>, scope: Seq<char>)
    requires
        ctx.variables@ == Map::<Seq<char>, VarV>::empty(),
    ensures
        ctx.lookup(name, scope) == Err::<ValueV, Seq<char>>(var_not_found(name)),
{
}

} // verus!
