//! A model of the ordinary objects that back object environments.
//!
//! The environment subsystem consumes only a small slice of the object model:
//! property existence, property get and set, property deletion, and the
//! `@@unscopables` rule that excludes a name from `with`-scope resolution.
//! `JsObject` holds exactly that: a property list, and the set of names whose
//! entry on the object's `@@unscopables` object coerces to true.

use vstd::prelude::*;

use crate::value::JsValue;

verus! {

/// One named property of an object. All model properties are writable,
/// enumerable and configurable.
pub struct Property {
    pub name: String,
    pub value: JsValue,
}

/// An ordinary object, reduced to what scope resolution can observe.
pub struct JsObject {
    /// The object's own properties; lookup takes the first entry with a
    /// matching name.
    pub properties: Vec<Property>,
    /// The names whose property on the object's `@@unscopables` object is
    /// truthy; such names are invisible to `with`-scope resolution.
    pub unscopables: Vec<String>,
}

/// The value of the first property named `name`, if any.
pub open spec fn props_find(props: Seq<Property>, name: Seq<char>) -> Option<JsValue>
    decreases props.len(),
{
    if props.len() == 0 {
        None
    } else if props[0].name@ == name {
        Some(props[0].value)
    } else {
        props_find(props.drop_first(), name)
    }
}

/// When no entry matches, the lookup misses.
pub proof fn lemma_props_find_none(props: Seq<Property>, name: Seq<char>)
    requires
        forall|i: int| 0 <= i < props.len() ==> props[i].name@ != name,
    ensures
        props_find(props, name) is None,
    decreases props.len(),
{
    if props.len() > 0 {
        assert(forall|i: int| 0 <= i < props.drop_first().len() ==> props.drop_first()[i]
            == props[i + 1]);
        lemma_props_find_none(props.drop_first(), name);
    }
}

/// The first matching entry decides the lookup.
pub proof fn lemma_props_find_at(props: Seq<Property>, name: Seq<char>, i: int)
    requires
        0 <= i < props.len(),
        props[i].name@ == name,
        forall|j: int| 0 <= j < i ==> props[j].name@ != name,
    ensures
        props_find(props, name) == Some(props[i].value),
    decreases i,
{
    if i > 0 {
        assert(forall|j: int| 0 <= j < props.drop_first().len() ==> props.drop_first()[j]
            == props[j + 1]);
        lemma_props_find_at(props.drop_first(), name, i - 1);
    }
}

/// Appending an entry changes only a lookup that missed before.
pub proof fn lemma_props_find_push(props: Seq<Property>, p: Property, name: Seq<char>)
    ensures
        props_find(props.push(p), name) == (if props_find(props, name) is Some {
            props_find(props, name)
        } else if p.name@ == name {
            Some(p.value)
        } else {
            None::<JsValue>
        }),
    decreases props.len(),
{
    let pushed = props.push(p);
    if props.len() == 0 {
        assert(pushed[0] == p);
        assert(pushed.drop_first() =~= Seq::<Property>::empty());
        assert(props_find(pushed.drop_first(), name) is None);
        assert(props_find(props, name) is None);
    } else {
        assert(pushed[0] == props[0]);
        assert(pushed.drop_first() =~= props.drop_first().push(p));
        lemma_props_find_push(props.drop_first(), p, name);
    }
}

/// Removing an entry with a different name leaves the lookup unchanged.
pub proof fn lemma_props_find_remove(props: Seq<Property>, i: int, name: Seq<char>)
    requires
        0 <= i < props.len(),
        props[i].name@ != name,
    ensures
        props_find(props.remove(i), name) == props_find(props, name),
    decreases i,
{
    if i == 0 {
        assert(props.remove(0) =~= props.drop_first());
    } else {
        assert(props.remove(i).drop_first() =~= props.drop_first().remove(i - 1));
        lemma_props_find_remove(props.drop_first(), i - 1, name);
        assert(props.remove(i)[0] == props[0]);
    }
}

impl JsObject {
    /// The value a non-throwing property read would produce, if the property
    /// exists.
    pub open spec fn spec_try_get(self, name: Seq<char>) -> Option<JsValue> {
        props_find(self.properties@, name)
    }

    /// Whether the object has an own property of this name.
    pub open spec fn spec_has(self, name: Seq<char>) -> bool {
        self.spec_try_get(name) is Some
    }

    /// The value an ordinary `[[Get]]` would produce: `Undefined` when the
    /// property is absent.
    pub open spec fn spec_get(self, name: Seq<char>) -> JsValue {
        match self.spec_try_get(name) {
            Some(v) => v,
            None => JsValue::Undefined,
        }
    }

    /// Whether `@@unscopables` hides this name from `with`-scope resolution.
    pub open spec fn spec_blocked(self, name: Seq<char>) -> bool {
        exists|i: int| 0 <= i < self.unscopables@.len() && (#[trigger] self.unscopables@[i])@
            == name
    }

    /// An object with no properties and no unscopable names.
    pub fn new() -> (r: Self)
        ensures
            forall|n: Seq<char>| !r.spec_has(n),
            forall|n: Seq<char>| !r.spec_blocked(n),
    {
        JsObject { properties: Vec::new(), unscopables: Vec::new() }
    }

    /// `HasProperty` on the model object.
    pub fn has_property(&self, name: &String) -> (r: bool)
        ensures
            r == self.spec_has(name@),
    {
        let mut i: usize = 0;
        while i < self.properties.len()
            invariant
                0 <= i <= self.properties@.len(),
                forall|j: int| 0 <= j < i ==> self.properties@[j].name@ != name@,
            decreases self.properties@.len() - i,
        {
            if self.properties[i].name == *name {
                proof {
                    lemma_props_find_at(self.properties@, name@, i as int);
                }
                return true;
            }
            i += 1;
        }
        proof {
            lemma_props_find_none(self.properties@, name@);
        }
        false
    }

    /// A non-throwing property read: `None` when the property is absent.
    pub fn try_get(&self, name: &String) -> (r: Option<JsValue>)
        ensures
            r == self.spec_try_get(name@),
    {
        let mut i: usize = 0;
        while i < self.properties.len()
            invariant
                0 <= i <= self.properties@.len(),
                forall|j: int| 0 <= j < i ==> self.properties@[j].name@ != name@,
            decreases self.properties@.len() - i,
        {
            if self.properties[i].name == *name {
                proof {
                    lemma_props_find_at(self.properties@, name@, i as int);
                }
                return Some(self.properties[i].value);
            }
            i += 1;
        }
        proof {
            lemma_props_find_none(self.properties@, name@);
        }
        None
    }

    /// An ordinary `[[Get]]`: `Undefined` when the property is absent.
    pub fn get(&self, name: &String) -> (r: JsValue)
        ensures
            r == self.spec_get(name@),
    {
        match self.try_get(name) {
            Some(v) => v,
            None => JsValue::Undefined,
        }
    }

    /// An ordinary `[[Set]]`. Model properties are always writable, so the
    /// write succeeds in strict and sloppy mode alike; the flag is taken only
    /// to mirror the `[[Set]]` interface.
    pub fn set(&mut self, name: String, value: JsValue, _strict: bool)
        ensures
            final(self).spec_try_get(name@) == Some(value),
            forall|m: Seq<char>| m != name@ ==> final(self).spec_try_get(m) == old(
                self,
            ).spec_try_get(m),
            final(self).unscopables == old(self).unscopables,
    {
        let mut i: usize = 0;
        while i < self.properties.len()
            invariant
                0 <= i <= self.properties@.len(),
                self.properties@ == old(self).properties@,
                self.unscopables == old(self).unscopables,
                forall|j: int| 0 <= j < i ==> self.properties@[j].name@ != name@,
            decreases self.properties@.len() - i,
        {
            if self.properties[i].name == name {
                let slot = &mut self.properties[i];
                slot.value = value;
                proof {
                    assert(self.properties@.len() == old(self).properties@.len());
                    assert(forall|j: int| 0 <= j < self.properties@.len() && j != i
                        ==> self.properties@[j] == old(self).properties@[j]);
                    assert(self.properties@[i as int].name == old(self).properties@[i as int].name);
                    assert(self.properties@[i as int].value == value);
                    lemma_props_find_at(self.properties@, name@, i as int);
                    assert(self.spec_try_get(name@) == Some(value));
                    assert forall|m: Seq<char>| m != name@ implies self.spec_try_get(m) == old(
                        self,
                    ).spec_try_get(m) by {
                        lemma_props_find_agree(old(self).properties@, self.properties@, m);
                    }
                }
                return ;
            }
            i += 1;
        }
        self.properties.push(Property { name, value });
        proof {
            let ghost orig = old(self).properties@;
            lemma_props_find_none(orig, name@);
            assert forall|m: Seq<char>|
                props_find(self.properties@, m) == (if props_find(orig, m) is Some {
                    props_find(orig, m)
                } else if self.properties@.last().name@ == m {
                    Some(self.properties@.last().value)
                } else {
                    None::<JsValue>
                }) by {
                lemma_props_find_push(orig, self.properties@.last(), m);
                assert(self.properties@ == orig.push(self.properties@.last()));
            }
        }
    }

    /// An ordinary `[[Delete]]`. Every model property is configurable, so the
    /// deletion always succeeds, whether or not the property existed.
    pub fn delete(&mut self, name: &String) -> (r: bool)
        ensures
            r == true,
            final(self).spec_try_get(name@) is None,
            forall|m: Seq<char>| m != name@ ==> final(self).spec_try_get(m) == old(
                self,
            ).spec_try_get(m),
            final(self).unscopables == old(self).unscopables,
    {
        let ghost orig = self.properties@;
        let mut i: usize = 0;
        while i < self.properties.len()
            invariant
                0 <= i <= self.properties@.len(),
                forall|j: int| 0 <= j < i ==> self.properties@[j].name@ != name@,
                self.unscopables == old(self).unscopables,
                forall|m: Seq<char>| m != name@ ==> props_find(self.properties@, m) == props_find(
                    orig,
                    m,
                ),
            decreases self.properties@.len() - i,
        {
            if self.properties[i].name == *name {
                let ghost before = self.properties@;
                self.properties.remove(i);
                proof {
                    assert forall|m: Seq<char>| m != name@ implies props_find(
                        self.properties@,
                        m,
                    ) == props_find(before, m) by {
                        lemma_props_find_remove(before, i as int, m);
                    }
                }
            } else {
                i += 1;
            }
        }
        proof {
            lemma_props_find_none(self.properties@, name@);
        }
        true
    }

    /// Marks a name as hidden from `with`-scope resolution: the entry of that
    /// name on the object's `@@unscopables` object becomes truthy.
    pub fn add_unscopable(&mut self, name: String)
        ensures
            final(self).spec_blocked(name@),
            forall|m: Seq<char>| m != name@ ==> final(self).spec_blocked(m) == old(
                self,
            ).spec_blocked(m),
            final(self).properties == old(self).properties,
    {
        self.unscopables.push(name);
        proof {
            let last = self.unscopables@.len() - 1;
            assert((self.unscopables@[last])@ == name@);
            assert(self.spec_blocked(name@));
            assert forall|m: Seq<char>| m != name@ implies self.spec_blocked(m) == old(
                self,
            ).spec_blocked(m) by {
                if old(self).spec_blocked(m) {
                    let i = choose|i: int|
                        0 <= i < old(self).unscopables@.len() && (#[trigger] old(
                            self,
                        ).unscopables@[i])@ == m;
                    assert((self.unscopables@[i])@ == m);
                }
                if self.spec_blocked(m) {
                    let i = choose|i: int|
                        0 <= i < self.unscopables@.len() && (#[trigger] self.unscopables@[i])@
                            == m;
                    assert(i < old(self).unscopables@.len());
                }
            }
        }
    }

    /// Whether `@@unscopables` hides this name.
    pub fn is_unscopable(&self, name: &String) -> (r: bool)
        ensures
            r == self.spec_blocked(name@),
    {
        let mut i: usize = 0;
        while i < self.unscopables.len()
            invariant
                0 <= i <= self.unscopables@.len(),
                forall|j: int| 0 <= j < i ==> (#[trigger] self.unscopables@[j])@ != name@,
            decreases self.unscopables@.len() - i,
        {
            if self.unscopables[i] == *name {
                return true;
            }
            i += 1;
        }
        false
    }
}

/// Lookups agree on two property lists of the same shape whose entries of the
/// looked-up name carry equal values.
pub proof fn lemma_props_find_agree(a: Seq<Property>, b: Seq<Property>, name: Seq<char>)
    requires
        a.len() == b.len(),
        forall|i: int| 0 <= i < a.len() ==> a[i].name@ == b[i].name@,
        forall|i: int| 0 <= i < a.len() && a[i].name@ == name ==> a[i].value == b[i].value,
    ensures
        props_find(a, name) == props_find(b, name),
    decreases a.len(),
{
    if a.len() > 0 {
        assert(forall|i: int| 0 <= i < a.drop_first().len() ==> a.drop_first()[i] == a[i + 1]);
        assert(forall|i: int| 0 <= i < b.drop_first().len() ==> b.drop_first()[i] == b[i + 1]);
        lemma_props_find_agree(a.drop_first(), b.drop_first(), name);
    }
}

} // verus!
