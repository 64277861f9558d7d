//! Private environments: the parallel scope chain of class-private names.

use vstd::prelude::*;

verus! {

/// A resolved private name: its spelling and the stable identity of the
/// private environment that declared it. The identity tells same-spelled
/// fields of nested classes apart.
pub struct PrivateName {
    pub description: String,
    pub id: u32,
}

impl PrivateName {
    pub fn new(description: String, id: u32) -> (r: Self)
        ensures
            r.description == description,
            r.id == id,
    {
        PrivateName { description, id }
    }
}

/// One class body's private-name scope: a stable numeric identity and the
/// ordered spellings it declares.
pub struct PrivateEnvironment {
    pub id: u32,
    pub descriptions: Vec<String>,
}

impl PrivateEnvironment {
    /// Whether this environment declares a private name of this spelling.
    pub open spec fn spec_contains(self, name: Seq<char>) -> bool {
        exists|i: int| 0 <= i < self.descriptions@.len() && (#[trigger] self.descriptions@[i])@
            == name
    }

    pub fn new(id: u32, descriptions: Vec<String>) -> (r: Self)
        ensures
            r.id == id,
            r.descriptions == descriptions,
    {
        PrivateEnvironment { id, descriptions }
    }

    /// The stable identity of this environment.
    pub fn id(&self) -> (r: u32)
        ensures
            r == self.id,
    {
        self.id
    }

    /// The ordered private-name spellings this environment declares.
    pub fn descriptions(&self) -> (r: &Vec<String>)
        ensures
            *r == self.descriptions,
    {
        &self.descriptions
    }

    /// Whether this environment declares a private name of this spelling.
    pub fn contains_description(&self, name: &String) -> (r: bool)
        ensures
            r == self.spec_contains(name@),
    {
        let mut i: usize = 0;
        while i < self.descriptions.len()
            invariant
                0 <= i <= self.descriptions@.len(),
                forall|j: int| 0 <= j < i ==> (#[trigger] self.descriptions@[j])@ != name@,
            decreases self.descriptions@.len() - i,
        {
            if self.descriptions[i] == *name {
                return true;
            }
            i += 1;
        }
        false
    }
}

} // verus!
