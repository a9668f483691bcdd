//! The composite value a track produces — an ordered group of fixed-point
//! channels — and the opaque reference naming the property it animates.

use vstd::prelude::*;

verus! {

/// Which entity a property reference points at.
#[derive(Debug)]
pub enum EntityPath {
    This,
    Parent,
    Named(String),
}

/// Abstract form of an [`EntityPath`]: the same shape over character
/// sequences.
pub enum EntityPathView {
    This,
    Parent,
    Named(Seq<char>),
}

impl View for EntityPath {
    type V = EntityPathView;

    open spec fn view(&self) -> EntityPathView {
        match self {
            EntityPath::This => EntityPathView::This,
            EntityPath::Parent => EntityPathView::Parent,
            EntityPath::Named(s) => EntityPathView::Named(s@),
        }
    }
}

impl Clone for EntityPath {
    fn clone(&self) -> (r: Self)
        ensures
            r == *self,
    {
        match self {
            EntityPath::This => EntityPath::This,
            EntityPath::Parent => EntityPath::Parent,
            EntityPath::Named(s) => EntityPath::Named(s.clone()),
        }
    }
}

impl PartialEq for EntityPath {
    fn eq(&self, other: &Self) -> (r: bool) {
        match (self, other) {
            (EntityPath::This, EntityPath::This) => true,
            (EntityPath::Parent, EntityPath::Parent) => true,
            (EntityPath::Named(a), EntityPath::Named(b)) => *a == *b,
            _ => false,
        }
    }
}

impl vstd::std_specs::cmp::PartialEqSpecImpl for EntityPath {
    open spec fn obeys_eq_spec() -> bool {
        true
    }

    open spec fn eq_spec(&self, other: &Self) -> bool {
        self@ == other@
    }
}

/// An opaque, comparable key naming an entity's property.  The engine
/// never looks inside it; it only clones it into evaluation results.
#[derive(Debug)]
pub struct NamedPropRef {
    pub entity: EntityPath,
    pub name: String,
}

/// Abstract form of a [`NamedPropRef`].
pub struct PropRefView {
    pub entity: EntityPathView,
    pub name: Seq<char>,
}

impl View for NamedPropRef {
    type V = PropRefView;

    open spec fn view(&self) -> PropRefView {
        PropRefView { entity: self.entity@, name: self.name@ }
    }
}

impl NamedPropRef {
    pub fn new(entity: EntityPath, name: &str) -> (r: Self)
        ensures
            r.entity == entity,
            r.name@ == name@,
    {
        NamedPropRef { entity, name: name.to_owned() }
    }
}

impl Clone for NamedPropRef {
    fn clone(&self) -> (r: Self)
        ensures
            r == *self,
    {
        NamedPropRef { entity: self.entity.clone(), name: self.name.clone() }
    }
}

impl PartialEq for NamedPropRef {
    fn eq(&self, other: &Self) -> (r: bool) {
        self.entity == other.entity && self.name == other.name
    }
}

impl vstd::std_specs::cmp::PartialEqSpecImpl for NamedPropRef {
    open spec fn obeys_eq_spec() -> bool {
        true
    }

    open spec fn eq_spec(&self, other: &Self) -> bool {
        self@ == other@
    }
}

/// A composite animatable value: one fixed-point number per channel, so a
/// scalar is one channel and a vector is one channel per component.
#[derive(Debug)]
pub struct Animatable {
    pub value: Vec<i64>,
}

impl View for Animatable {
    type V = Seq<int>;

    open spec fn view(&self) -> Seq<int> {
        Seq::new(self.value@.len(), |i: int| self.value@[i] as int)
    }
}

impl Animatable {
    /// A single-channel value.
    pub fn new_scalar(v: i64) -> (r: Animatable)
        ensures
            r@ =~= seq![v as int],
            r.value@ =~= seq![v],
    {
        Animatable { value: vec![v] }
    }

    /// Number of channels.
    pub fn channels(&self) -> (r: usize)
        ensures
            r == self@.len(),
    {
        self.value.len()
    }
}

impl Clone for Animatable {
    fn clone(&self) -> (r: Self)
        ensures
            r.value@ == self.value@,
            r@ == self@,
    {
        let mut out: Vec<i64> = Vec::new();
        let mut i: usize = 0;
        while i < self.value.len()
            invariant
                0 <= i <= self.value.len(),
                out@ =~= self.value@.take(i as int),
            decreases self.value.len() - i,
        {
            out.push(self.value[i]);
            i += 1;
        }
        proof {
            assert(out@ =~= self.value@);
        }
        let r = Animatable { value: out };
        proof {
            assert(r@ =~= self@);
        }
        r
    }
}

impl PartialEq for Animatable {
    fn eq(&self, other: &Self) -> (r: bool) {
        if self.value.len() != other.value.len() {
            return false;
        }
        let mut i: usize = 0;
        while i < self.value.len()
            invariant
                0 <= i <= self.value.len(),
                self.value@.len() == other.value@.len(),
                forall|j: int| 0 <= j < i ==> self.value@[j] == other.value@[j],
            decreases self.value.len() - i,
        {
            if self.value[i] != other.value[i] {
                return false;
            }
            i += 1;
        }
        proof {
            assert(self.value@ =~= other.value@);
            assert(self@ =~= other@);
        }
        true
    }
}

impl vstd::std_specs::cmp::PartialEqSpecImpl for Animatable {
    open spec fn obeys_eq_spec() -> bool {
        true
    }

    open spec fn eq_spec(&self, other: &Self) -> bool {
        self@ == other@ && self.value@ == other.value@
    }
}

} // verus!
