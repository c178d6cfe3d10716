//! The environment: one flat table from variable names to values.

use crate::scanner::token::{Literal, LiteralType};
use vstd::prelude::*;

verus! {

/// A value at run time.
#[derive(Debug, PartialEq)]
pub struct LoxValue {
    pub value: LiteralType,
}

impl View for LoxValue {
    type V = Literal;

    open spec fn view(&self) -> Literal {
        self.value@
    }
}

impl DeepView for LoxValue {
    type V = Literal;

    open spec fn deep_view(&self) -> Literal {
        self@
    }
}

impl Clone for LoxValue {
    fn clone(&self) -> (copy: Self)
        ensures
            copy@ == self@,
    {
        LoxValue { value: self.value.clone() }
    }
}

/// What an environment holds: the value of each defined name.
pub type Bindings = Map<Seq<char>, Literal>;

/// The message of the runtime error for a name that is not defined.
pub open spec fn undefined_variable(name: Seq<char>) -> Seq<char> {
    "Undefined variable "@ + name + "."@
}

/// The table of a sequence of entries; of two entries with one name the
/// earlier counts.
pub open spec fn table(entries: Seq<(Seq<char>, Literal)>) -> Bindings
    decreases entries.len(),
{
    if entries.len() == 0 {
        Map::empty()
    } else {
        table(entries.drop_first()).insert(entries.first().0, entries.first().1)
    }
}

/// Whether no entry before `index` has the name `name`.
pub open spec fn absent_before(entries: Seq<(Seq<char>, Literal)>, index: int, name: Seq<char>) -> bool {
    forall|i: int| 0 <= i < index && i < entries.len() ==> (#[trigger] entries[i]).0 != name
}

/// A name that no entry has is not in the table.
proof fn table_lacks(entries: Seq<(Seq<char>, Literal)>, name: Seq<char>)
    requires
        absent_before(entries, entries.len() as int, name),
    ensures
        !table(entries).contains_key(name),
    decreases entries.len(),
{
    if entries.len() > 0 {
        assert(entries[0].0 != name);
        assert forall|i: int| 0 <= i < entries.len() - 1 implies (#[trigger] entries.drop_first()[i]).0
            != name by {
            assert(entries.drop_first()[i] == entries[i + 1]);
        }
        table_lacks(entries.drop_first(), name);
    }
}

/// The table holds the value of the first entry that has a name.
proof fn table_holds(entries: Seq<(Seq<char>, Literal)>, index: int)
    requires
        0 <= index < entries.len(),
        absent_before(entries, index, entries[index].0),
    ensures
        table(entries).contains_key(entries[index].0),
        table(entries)[entries[index].0] == entries[index].1,
    decreases entries.len(),
{
    if index > 0 {
        let name = entries[index].0;
        assert(entries[0].0 != name);
        assert(entries.drop_first()[index - 1] == entries[index]);
        assert forall|i: int| 0 <= i < index - 1 implies (#[trigger] entries.drop_first()[i]).0
            != name by {
            assert(entries.drop_first()[i] == entries[i + 1]);
        }
        table_holds(entries.drop_first(), index - 1);
    }
}

/// A new value for the first entry that has a name is a new value for the
/// name in the table.
proof fn table_updates(entries: Seq<(Seq<char>, Literal)>, index: int, value: Literal)
    requires
        0 <= index < entries.len(),
        absent_before(entries, index, entries[index].0),
    ensures
        table(entries.update(index, (entries[index].0, value))) == table(entries).insert(
            entries[index].0,
            value,
        ),
    decreases entries.len(),
{
    let name = entries[index].0;
    let updated = entries.update(index, (name, value));
    if index == 0 {
        assert(updated.drop_first() =~= entries.drop_first());
        assert(table(updated) =~= table(entries).insert(name, value));
    } else {
        assert(entries[0].0 != name);
        assert(entries.drop_first()[index - 1] == entries[index]);
        assert forall|i: int| 0 <= i < index - 1 implies (#[trigger] entries.drop_first()[i]).0
            != name by {
            assert(entries.drop_first()[i] == entries[i + 1]);
        }
        table_updates(entries.drop_first(), index - 1, value);
        assert(updated.drop_first() =~= entries.drop_first().update(index - 1, (name, value)));
        assert(updated.first() == entries.first());
        assert(table(updated) =~= table(entries).insert(name, value));
    }
}

/// An entry for a name that no entry has is a value for the name in the
/// table.
proof fn table_grows(entries: Seq<(Seq<char>, Literal)>, name: Seq<char>, value: Literal)
    requires
        absent_before(entries, entries.len() as int, name),
    ensures
        table(entries.push((name, value))) == table(entries).insert(name, value),
    decreases entries.len(),
{
    let grown = entries.push((name, value));
    if entries.len() == 0 {
        assert(grown.drop_first() =~= entries);
        assert(table(grown) =~= table(entries).insert(name, value));
    } else {
        assert(entries[0].0 != name);
        assert forall|i: int| 0 <= i < entries.len() - 1 implies (#[trigger] entries.drop_first()[i]).0
            != name by {
            assert(entries.drop_first()[i] == entries[i + 1]);
        }
        table_grows(entries.drop_first(), name, value);
        assert(grown.drop_first() =~= entries.drop_first().push((name, value)));
        assert(grown.first() == entries.first());
        assert(table(grown) =~= table(entries).insert(name, value));
    }
}

/// The variables of a run.  There is one table for the whole run: no nested
/// scopes, no shadowing.
pub struct Environment {
    values: Vec<(String, LoxValue)>,
}

impl Environment {
    /// The entries, as names and values.
    closed spec fn entries(&self) -> Seq<(Seq<char>, Literal)> {
        Seq::new(self.values@.len(), |i: int| (self.values@[i].0@, self.values@[i].1@))
    }

    /// The value of each defined name.
    pub closed spec fn bindings(&self) -> Bindings {
        table(self.entries())
    }

    /// An environment in which no name is defined.
    pub fn new() -> (environment: Self)
        ensures
            environment.bindings() == Map::<Seq<char>, Literal>::empty(),
    {
        Environment { values: Vec::new() }
    }

    /// The index of the entry for `name`, if there is one.
    fn find(&self, name: &String) -> (found: Option<usize>)
        ensures
            match found {
                Some(index) => index < self.values@.len() && self.entries()[index as int].0 == name@
                    && absent_before(self.entries(), index as int, name@),
                None => absent_before(self.entries(), self.values@.len() as int, name@),
            },
    {
        let mut index: usize = 0;
        while index < self.values.len()
            invariant
                index <= self.values@.len(),
                absent_before(self.entries(), index as int, name@),
            decreases self.values@.len() - index,
        {
            if self.values[index].0 == *name {
                return Some(index);
            }
            index += 1;
        }
        None
    }

    /// Binds `name` to `value`, whether or not it was bound before.  Without
    /// a value nothing is bound: the name stays as it was.
    pub fn define(&mut self, name: String, value: Option<LoxValue>)
        ensures
            final(self).bindings() == match value {
                Some(val) => old(self).bindings().insert(name@, val@),
                None => old(self).bindings(),
            },
    {
        if let Some(val) = value {
            self.put(name, val);
        }
    }

    /// Binds `name` to `value`.
    fn put(&mut self, name: String, value: LoxValue)
        ensures
            final(self).bindings() == old(self).bindings().insert(name@, value@),
    {
        let ghost before = self.entries();
        match self.find(&name) {
            Some(index) => {
                self.values[index] = (name, value);
                proof {
                    assert(self.entries() =~= before.update(index as int, (name@, value@)));
                    table_updates(before, index as int, value@);
                }
            },
            None => {
                self.values.push((name, value));
                proof {
                    assert(self.entries() =~= before.push((name@, value@)));
                    table_grows(before, name@, value@);
                }
            },
        }
    }

    /// The value of `name`, or the message of the error for a name that is
    /// not defined.
    pub fn get(&self, name: &str) -> (result: Result<LoxValue, String>)
        ensures
            match result {
                Ok(value) => self.bindings().contains_key(name@) && value@ == self.bindings()[name@],
                Err(message) => !self.bindings().contains_key(name@) && message@ == undefined_variable(name@),
            },
    {
        match self.find(&name.to_owned()) {
            Some(index) => {
                proof {
                    table_holds(self.entries(), index as int);
                }
                Ok(self.values[index].1.clone())
            },
            None => {
                proof {
                    table_lacks(self.entries(), name@);
                }
                Err(undefined(name))
            },
        }
    }

    /// Gives `name` a new value.  A name that is not defined stays
    /// undefined, and the result is the message of the error.
    pub fn assign(&mut self, name: String, value: &LoxValue) -> (result: Result<(), String>)
        ensures
            match result {
                Ok(_) => old(self).bindings().contains_key(name@) && final(self).bindings() == old(
                    self,
                ).bindings().insert(name@, value@),
                Err(message) => !old(self).bindings().contains_key(name@) && final(self).bindings() == old(
                    self,
                ).bindings() && message@ == undefined_variable(name@),
            },
    {
        let ghost before = self.entries();
        match self.find(&name) {
            Some(index) => {
                proof {
                    table_holds(before, index as int);
                }
                self.values[index] = (name, value.clone());
                proof {
                    assert(self.entries() =~= before.update(index as int, (name@, value@)));
                    table_updates(before, index as int, value@);
                }
                Ok(())
            },
            None => {
                proof {
                    table_lacks(before, name@);
                }
                Err(undefined(name.as_str()))
            },
        }
    }
}

/// The message of the runtime error for the undefined name `name`.
pub fn undefined(name: &str) -> (message: String)
    ensures
        message@ == undefined_variable(name@),
{
    let mut message = "Undefined variable ".to_owned();
    message.append(name);
    message.append(".");
    message
}

/// Reading and assigning meet an undefined name alike: both fail, with one
/// message, and neither defines the name.
pub proof fn undefined_alike(bindings: Bindings, name: Seq<char>)
    requires
        !bindings.contains_key(name),
    ensures
        read(bindings, name) == Err::<Literal, Seq<char>>(undefined_variable(name)),
        written(bindings, name, Literal::Nil).0 == Err::<Literal, Seq<char>>(undefined_variable(name)),
        written(bindings, name, Literal::Nil).1 == bindings,
{
}

/// What reading `name` gives.
pub open spec fn read(bindings: Bindings, name: Seq<char>) -> Result<Literal, Seq<char>> {
    if bindings.contains_key(name) {
        Ok(bindings[name])
    } else {
        Err(undefined_variable(name))
    }
}

/// What assigning `value` to `name` gives, and the bindings after it.
pub open spec fn written(bindings: Bindings, name: Seq<char>, value: Literal) -> (
    Result<Literal, Seq<char>>,
    Bindings,
) {
    if bindings.contains_key(name) {
        (Ok(value), bindings.insert(name, value))
    } else {
        (Err(undefined_variable(name)), bindings)
    }
}

} // verus!
