use vstd::prelude::*;

verus! {

/// A datum, identified by an id.
pub trait Datable {
    fn id(&self) -> u64;
}

/// A point in space, identified by an id.
pub trait Spatial {
    fn id(&self) -> u64;
}

/// A point in time, identified by an id.
pub trait Temporal {
    fn id(&self) -> u64;
}

/// A point in space-time, identified by an id.
pub trait SpaceTemporal {
    fn id(&self) -> u64;
}

#[derive(Clone, Copy, Debug, PartialEq, Eq, Structural)]
pub struct Data<V> {
    pub id: u64,
    pub data: V,
}

#[derive(Clone, Copy, Debug, PartialEq, Eq, Structural)]
pub struct Space<V> {
    pub id: u64,
    pub x: V,
    pub y: V,
    pub z: V,
}

#[derive(Clone, Copy, Debug, PartialEq, Eq, Structural)]
pub struct Time<V> {
    pub id: u64,
    pub time_unit: V,
}

#[derive(Clone, Copy, Debug, PartialEq, Eq, Structural)]
pub struct SpaceTime<V> {
    pub id: u64,
    pub x: V,
    pub y: V,
    pub z: V,
    pub t: V,
}

impl<V> Datable for Data<V> {
    fn id(&self) -> u64 {
        self.id
    }
}

impl<V> Spatial for Space<V> {
    fn id(&self) -> u64 {
        self.id
    }
}

impl<V> Temporal for Time<V> {
    fn id(&self) -> u64 {
        self.id
    }
}

impl<V> SpaceTemporal for SpaceTime<V> {
    fn id(&self) -> u64 {
        self.id
    }
}

/// What a contextoid is: exactly one of a datum, a spatial, a temporal or a
/// space-temporal point.
#[derive(Clone, Copy, Debug, PartialEq, Eq, Structural)]
pub enum ContextoidType<D, S, T, ST> {
    Datoid(D),
    Spaceoid(S),
    Tempoid(T),
    SpaceTempoid(ST),
}

/// A node of a context.
#[derive(Clone, Copy, Debug, PartialEq, Eq, Structural)]
pub struct Contextoid<D, S, T, ST> {
    pub id: u64,
    pub vertex_type: ContextoidType<D, S, T, ST>,
}

impl<D, S, T, ST> Contextoid<D, S, T, ST> {
    pub fn new(id: u64, vertex_type: ContextoidType<D, S, T, ST>) -> (r: Self)
        ensures
            r.id == id,
            r.vertex_type == vertex_type,
    {
        Contextoid { id, vertex_type }
    }
}

/// A contextoid over the base data, space and time types with `u64` values.
pub type BaseContextoid = Contextoid<Data<u64>, Space<u64>, Time<u64>, SpaceTime<u64>>;

/// The kind of causal relation an edge stands for; an edge's weight is its code.
#[derive(Clone, Copy, Debug, PartialEq, Eq, Structural)]
pub enum RelationKind {
    Datial,
    Temporal,
    Spatial,
    SpaceTemporal,
}

impl RelationKind {
    pub open spec fn spec_code(self) -> u64 {
        match self {
            RelationKind::Datial => 0,
            RelationKind::Temporal => 1,
            RelationKind::Spatial => 2,
            RelationKind::SpaceTemporal => 3,
        }
    }

    pub fn code(&self) -> (r: u64)
        ensures
            r == self.spec_code(),
    {
        match self {
            RelationKind::Datial => 0,
            RelationKind::Temporal => 1,
            RelationKind::Spatial => 2,
            RelationKind::SpaceTemporal => 3,
        }
    }
}

} // verus!
