//! The variable environment: a persistent snapshot mapping variable names to
//! unevaluated expressions. Updates copy; earlier snapshots stay valid.

use vstd::prelude::*;

use crate::expression::{expr_model, ExprModel, Expression};

verus! {

/// A snapshot of variable bindings. Each name is bound to an unevaluated
/// expression; a lookup re-evaluates the stored expression at use time.
#[derive(Debug, PartialEq)]
pub struct Environment {
    entries: Vec<(String, Expression)>,
}

/// The mathematical image of an environment: its bindings in order, names
/// as character sequences and expressions as models. The first binding of a
/// name is the one that counts.
pub type EnvModel = Seq<(Seq<char>, ExprModel)>;

/// The models of a list of bindings, in order.
pub open spec fn entry_models(es: Seq<(String, Expression)>) -> EnvModel
    decreases es,
{
    if es.len() == 0 {
        Seq::empty()
    } else {
        seq![(es[0].0@, expr_model(es[0].1))] + entry_models(es.drop_first())
    }
}

impl View for Environment {
    type V = EnvModel;

    closed spec fn view(&self) -> EnvModel {
        entry_models(self.entries@)
    }
}

/// The expression bound to `name`, if any: the first binding of that name.
pub open spec fn env_lookup(m: EnvModel, name: Seq<char>) -> Option<ExprModel>
    decreases m.len(),
{
    if m.len() == 0 {
        Option::None
    } else if m[0].0 == name {
        Option::Some(m[0].1)
    } else {
        env_lookup(m.drop_first(), name)
    }
}

/// The environment with `name` bound to `e`: the first binding of that name
/// is replaced, or a new binding is appended.
pub open spec fn env_update(m: EnvModel, name: Seq<char>, e: ExprModel) -> EnvModel
    decreases m.len(),
{
    if m.len() == 0 {
        seq![(name, e)]
    } else if m[0].0 == name {
        seq![(m[0].0, e)] + m.drop_first()
    } else {
        seq![m[0]] + env_update(m.drop_first(), name, e)
    }
}

/// The model of a binding list, pointwise.
pub proof fn lemma_entry_models(es: Seq<(String, Expression)>)
    ensures
        entry_models(es).len() == es.len(),
        forall|i: int|
            0 <= i < es.len() ==> #[trigger] entry_models(es)[i] == (
                es[i].0@,
                expr_model(es[i].1),
            ),
    decreases es.len(),
{
    if es.len() > 0 {
        lemma_entry_models(es.drop_first());
        assert forall|i: int|
            0 <= i < es.len() implies entry_models(es)[i] == (
            es[i].0@,
            expr_model(es[i].1),
        ) by {
            if i > 0 {
                assert(es.drop_first()[i - 1] == es[i]);
                assert(entry_models(es)[i] == entry_models(es.drop_first())[i - 1]);
            }
        }
    }
}

/// A lookup whose first match is at index `i` returns that binding.
pub proof fn lemma_env_lookup_found(m: EnvModel, name: Seq<char>, i: int)
    requires
        0 <= i < m.len(),
        m[i].0 == name,
        forall|j: int| 0 <= j < i ==> (#[trigger] m[j]).0 != name,
    ensures
        env_lookup(m, name) == Option::Some(m[i].1),
    decreases i,
{
    if i > 0 {
        lemma_env_lookup_found(m.drop_first(), name, i - 1);
    }
}

/// A lookup of a name that no binding carries returns nothing.
pub proof fn lemma_env_lookup_missing(m: EnvModel, name: Seq<char>)
    requires
        forall|j: int| 0 <= j < m.len() ==> (#[trigger] m[j]).0 != name,
    ensures
        env_lookup(m, name) == Option::None::<ExprModel>,
    decreases m.len(),
{
    if m.len() > 0 {
        lemma_env_lookup_missing(m.drop_first(), name);
    }
}

/// An update whose first match is at index `i` rewrites that binding alone.
pub proof fn lemma_env_update_found(m: EnvModel, name: Seq<char>, e: ExprModel, i: int)
    requires
        0 <= i < m.len(),
        m[i].0 == name,
        forall|j: int| 0 <= j < i ==> (#[trigger] m[j]).0 != name,
    ensures
        env_update(m, name, e) =~= m.update(i, (m[i].0, e)),
    decreases i,
{
    if i == 0 {
        assert(env_update(m, name, e) =~= m.update(0, (m[0].0, e)));
    } else {
        lemma_env_update_found(m.drop_first(), name, e, i - 1);
        assert(m.drop_first()[i - 1] == m[i]);
        assert(env_update(m, name, e) =~= m.update(i, (m[i].0, e)));
    }
}

/// An update of a name that no binding carries appends a binding.
pub proof fn lemma_env_update_missing(m: EnvModel, name: Seq<char>, e: ExprModel)
    requires
        forall|j: int| 0 <= j < m.len() ==> (#[trigger] m[j]).0 != name,
    ensures
        env_update(m, name, e) =~= m.push((name, e)),
    decreases m.len(),
{
    if m.len() > 0 {
        lemma_env_update_missing(m.drop_first(), name, e);
        assert(env_update(m, name, e) =~= seq![m[0]] + m.drop_first().push((name, e)));
    }
}

/// Looking a name up right after binding it gives the bound expression.
pub proof fn lemma_env_lookup_after_update(m: EnvModel, name: Seq<char>, e: ExprModel)
    ensures
        env_lookup(env_update(m, name, e), name) == Option::Some(e),
    decreases m.len(),
{
    if m.len() != 0 && m[0].0 != name {
        lemma_env_lookup_after_update(m.drop_first(), name, e);
        assert((seq![m[0]] + env_update(m.drop_first(), name, e)).drop_first() =~= env_update(
            m.drop_first(),
            name,
            e,
        ));
    }
}

/// Binding one name leaves every other name's lookup unchanged.
pub proof fn lemma_env_lookup_other(m: EnvModel, name: Seq<char>, e: ExprModel, other: Seq<char>)
    requires
        other != name,
    ensures
        env_lookup(env_update(m, name, e), other) == env_lookup(m, other),
    decreases m.len(),
{
    reveal_with_fuel(env_lookup, 3);
    if m.len() == 0 {
        assert(seq![(name, e)].drop_first() =~= Seq::<(Seq<char>, ExprModel)>::empty());
    } else if m[0].0 == name {
        assert((seq![(m[0].0, e)] + m.drop_first()).drop_first() =~= m.drop_first());
    } else {
        lemma_env_lookup_other(m.drop_first(), name, e, other);
        assert((seq![m[0]] + env_update(m.drop_first(), name, e)).drop_first() =~= env_update(
            m.drop_first(),
            name,
            e,
        ));
    }
}

impl Environment {
    /// A fresh environment with no bindings.
    pub fn new() -> (r: Environment)
        ensures
            r@ == Seq::<(Seq<char>, ExprModel)>::empty(),
    {
        Environment { entries: Vec::new() }
    }

    /// The number of bindings.
    pub fn len(&self) -> (r: usize)
        ensures
            r == self@.len(),
    {
        proof {
            lemma_entry_models(self.entries@);
        }
        self.entries.len()
    }

    /// The binding at position `i`: its name and its stored expression.
    pub fn entry_at(&self, i: usize) -> (r: &(String, Expression))
        requires
            i < self@.len(),
        ensures
            r.0@ == self@[i as int].0,
            r.1@ == self@[i as int].1,
    {
        proof {
            lemma_entry_models(self.entries@);
        }
        &self.entries[i]
    }

    /// The expression bound to `name`, if any.
    pub fn get(&self, name: &String) -> (r: Option<&Expression>)
        ensures
            match env_lookup(self@, name@) {
                Option::Some(me) => r is Some && r->0@ == me,
                Option::None => r is None,
            },
    {
        proof {
            lemma_entry_models(self.entries@);
        }
        let mut j: usize = 0;
        while j < self.entries.len()
            invariant
                j <= self.entries@.len(),
                self@ == entry_models(self.entries@),
                self@.len() == self.entries@.len(),
                forall|i: int|
                    0 <= i < self.entries@.len() ==> #[trigger] self@[i] == (
                        self.entries@[i].0@,
                        expr_model(self.entries@[i].1),
                    ),
                forall|k: int| 0 <= k < j ==> (#[trigger] self@[k]).0 != name@,
            decreases self.entries@.len() - j,
        {
            let entry = &self.entries[j];
            if entry.0.eq(name) {
                proof {
                    lemma_env_lookup_found(self@, name@, j as int);
                }
                return Option::Some(&entry.1);
            }
            j = j + 1;
        }
        proof {
            lemma_env_lookup_missing(self@, name@);
        }
        Option::None
    }

    /// Binds `name` to `value`, replacing its first binding if one exists
    /// and appending a new binding otherwise.
    pub fn insert(&mut self, name: String, value: Expression)
        ensures
            final(self)@ == env_update(old(self)@, name@, value@),
    {
        proof {
            lemma_entry_models(self.entries@);
        }
        let ghost m = self@;
        let mut j: usize = 0;
        while j < self.entries.len()
            invariant
                j <= self.entries@.len(),
                m == old(self)@,
                m == entry_models(self.entries@),
                m.len() == self.entries@.len(),
                forall|i: int|
                    0 <= i < self.entries@.len() ==> #[trigger] m[i] == (
                        self.entries@[i].0@,
                        expr_model(self.entries@[i].1),
                    ),
                forall|k: int| 0 <= k < j ==> (#[trigger] m[k]).0 != name@,
            decreases self.entries@.len() - j,
        {
            if self.entries[j].0.eq(&name) {
                let key = self.entries[j].0.clone();
                let ghost prev = self.entries@;
                self.entries.set(j, (key, value));
                proof {
                    lemma_env_update_found(m, name@, expr_model(value), j as int);
                    lemma_entry_models(self.entries@);
                    assert(entry_models(self.entries@) =~= m.update(
                        j as int,
                        (m[j as int].0, expr_model(value)),
                    ));
                    assert(m == old(self)@);
                    assert(env_update(m, name@, expr_model(value)) == m.update(
                        j as int,
                        (m[j as int].0, expr_model(value)),
                    ));
                    assert(entry_models(self.entries@) == env_update(m, name@, expr_model(value)));
                }
                return ;
            }
            j = j + 1;
        }
        let ghost prev = self.entries@;
        self.entries.push((name, value));
        proof {
            lemma_env_update_missing(m, name@, expr_model(value));
            lemma_entry_models(self.entries@);
            assert(entry_models(self.entries@) =~= m.push((name@, expr_model(value))));
        }
    }

    /// An explicit deep copy whose result has the same model as the
    /// original.
    pub fn duplicate(&self) -> (r: Environment)
        ensures
            r@ == self@,
    {
        proof {
            lemma_entry_models(self.entries@);
        }
        let mut out: Vec<(String, Expression)> = Vec::new();
        let mut i: usize = 0;
        while i < self.entries.len()
            invariant
                i <= self.entries@.len(),
                self@ == entry_models(self.entries@),
                self@.len() == self.entries@.len(),
                forall|k: int|
                    0 <= k < self.entries@.len() ==> #[trigger] self@[k] == (
                        self.entries@[k].0@,
                        expr_model(self.entries@[k].1),
                    ),
                entry_models(out@).len() == i,
                entry_models(out@) =~= self@.subrange(0, i as int),
            decreases self.entries@.len() - i,
        {
            let name = self.entries[i].0.clone();
            let dup = self.entries[i].1.duplicate();
            let ghost prev = out@;
            let ghost pr = (name, dup);
            out.push((name, dup));
            proof {
                lemma_entry_models(prev);
                lemma_entry_models(out@);
                assert(out@ =~= prev.push(pr));
                assert(entry_models(out@) =~= self@.subrange(0, i as int + 1));
            }
            i = i + 1;
        }
        proof {
            assert(self@.subrange(0, self@.len() as int) =~= self@);
        }
        Environment { entries: out }
    }
}

} // verus!
