//! Instances of classes: a class and fields by name, of values `V`.
use vstd::prelude::*;
use crate::errors::interpreter_error::InterpreterError;
use crate::interpreter::class::class::Class;
use crate::interpreter::environment::{entries_map, find_entry, put_entry};
use crate::interpreter::function::Function;
use crate::text::owned;

verus! {

/// An instance: its class and its fields (a later field of the same name
/// overrides an earlier one).
#[derive(Debug, Clone)]
pub struct Instance<V> {
    class: Class,
    fields: Vec<(String, V)>,
}

/// What a property read finds: a field's value or a method of the class.
pub enum Property<'a, V> {
    Field(&'a V),
    Method(&'a Function),
}

impl<V> Instance<V> {
    /// The instance's class.
    pub closed spec fn spec_class(self) -> Class {
        self.class
    }

    /// The instance's fields by name.
    pub closed spec fn field_table(self) -> Map<Seq<char>, V> {
        entries_map(self.fields@)
    }

    /// A new instance of `class`, without fields.
    pub fn new(class: Class) -> (r: Instance<V>)
        ensures
            r.spec_class() == class,
            r.field_table() == Map::<Seq<char>, V>::empty(),
    {
        let r = Instance { class, fields: Vec::new() };
        assert(r.field_table() =~= Map::<Seq<char>, V>::empty());
        r
    }

    /// The property `name`: a field, else a method of the class or of a
    /// superclass (which the caller binds to the instance); a property that is neither is
    /// undefined at `line`, `col`.
    pub fn get(&self, name: &str, line: usize, col: usize) -> (r: Result<Property<'_, V>, InterpreterError>)
        ensures
            if self.field_table().contains_key(name@) {
                r matches Ok(Property::Field(v)) && *v == self.field_table()[name@]
            } else if self.spec_class().lookup_method(name@) is Some {
                r matches Ok(Property::Method(f)) && *f == self.spec_class().lookup_method(name@)->0
            } else {
                r matches Err(InterpreterError::UndefinedProperty { name: n, line: l, col: c })
                    && n@ == name@ && l == line && c == col
            },
    {
        if let Some(i) = find_entry(&self.fields, name) {
            return Ok(Property::Field(&self.fields[i].1));
        }
        if let Some(m) = self.class.find_method(name) {
            return Ok(Property::Method(m));
        }
        Err(InterpreterError::UndefinedProperty { name: owned(name), line, col })
    }

    /// The instance's class.
    pub fn class(&self) -> (r: &Class)
        ensures
            *r == self.spec_class(),
    {
        &self.class
    }

    /// The name of the instance's class.
    pub fn class_name(&self) -> (r: String)
        ensures
            r@ == self.spec_class().spec_name(),
    {
        owned(self.class.name())
    }

    /// Sets the field `name`.
    pub fn set(&mut self, name: &str, value: V)
        ensures
            final(self).field_table() == old(self).field_table().insert(name@, value),
            final(self).spec_class() == old(self).spec_class(),
    {
        put_entry(&mut self.fields, owned(name), value);
    }
}


/// Read after write on fields: once `set` has given a field a value, `get`
/// of that name finds the field with that value, even where the class has
/// a method of the same name.
pub proof fn law_field_after_set<V>(before: Instance<V>, after: Instance<V>, name: Seq<char>, value: V)
    requires
        after.field_table() == before.field_table().insert(name, value),
        after.spec_class() == before.spec_class(),
    ensures
        after.field_table().contains_key(name),
        after.field_table()[name] == value,
{
}

} // verus!
