use vstd::prelude::*;

verus! {

/// A rigid-body pose: a unit quaternion (4 components) followed by a
/// translation (3 components), packed into one 7-vector.
pub struct SpatialTransform<T> {
    inner: [T; 7],
}

impl<T: Copy> View for SpatialTransform<T> {
    type V = Seq<T>;

    closed spec fn view(&self) -> Seq<T> {
        self.inner@
    }
}

impl<T: Copy> SpatialTransform<T> {
    /// Packs the rotation quaternion and the translation into one pose.
    pub fn new(angular: [T; 4], linear: [T; 3]) -> (r: Self)
        ensures
            r@ =~= angular@ + linear@,
    {
        let inner = [angular[0], angular[1], angular[2], angular[3], linear[0], linear[1], linear[2]];
        SpatialTransform { inner }
    }

    /// The rotation quaternion: the first four components.
    pub fn angular(&self) -> (r: [T; 4])
        ensures
            r@ =~= self@.subrange(0, 4),
    {
        [self.inner[0], self.inner[1], self.inner[2], self.inner[3]]
    }

    /// The translation: the last three components.
    pub fn linear(&self) -> (r: [T; 3])
        ensures
            r@ =~= self@.subrange(4, 7),
    {
        [self.inner[4], self.inner[5], self.inner[6]]
    }
}

/// A spatial force: a torque (3 components) followed by a linear force
/// (3 components).
pub struct SpatialForce<T> {
    inner: [T; 6],
}

impl<T: Copy> View for SpatialForce<T> {
    type V = Seq<T>;

    closed spec fn view(&self) -> Seq<T> {
        self.inner@
    }
}

impl<T: Copy> SpatialForce<T> {
    /// Packs a torque and a force into one spatial force.
    pub fn new(torque: [T; 3], force: [T; 3]) -> (r: Self)
        ensures
            r@ =~= torque@ + force@,
    {
        let inner = [torque[0], torque[1], torque[2], force[0], force[1], force[2]];
        SpatialForce { inner }
    }

    /// The torque: the first three components.
    pub fn torque(&self) -> (r: [T; 3])
        ensures
            r@ =~= self@.subrange(0, 3),
    {
        [self.inner[0], self.inner[1], self.inner[2]]
    }

    /// The linear force: the last three components.
    pub fn force(&self) -> (r: [T; 3])
        ensures
            r@ =~= self@.subrange(3, 6),
    {
        [self.inner[3], self.inner[4], self.inner[5]]
    }
}

/// A body's mass properties: the diagonal of the rotational inertia
/// (3 components), the first mass moment (3 components) and the mass.
pub struct SpatialInertia<T> {
    inner: [T; 7],
}

impl<T: Copy> View for SpatialInertia<T> {
    type V = Seq<T>;

    closed spec fn view(&self) -> Seq<T> {
        self.inner@
    }
}

impl<T: Copy> SpatialInertia<T> {
    /// Packs the inertia diagonal, the momentum and the mass.
    pub fn new(inertia: [T; 3], momentum: [T; 3], mass: T) -> (r: Self)
        ensures
            r@ =~= inertia@ + momentum@ + seq![mass],
    {
        let inner = [
            inertia[0],
            inertia[1],
            inertia[2],
            momentum[0],
            momentum[1],
            momentum[2],
            mass,
        ];
        SpatialInertia { inner }
    }

    /// The diagonal of the rotational inertia: components 0 to 2.
    pub fn inertia_diag(&self) -> (r: [T; 3])
        ensures
            r@ =~= self@.subrange(0, 3),
    {
        [self.inner[0], self.inner[1], self.inner[2]]
    }

    /// The first mass moment: components 3 to 5.
    pub fn momentum(&self) -> (r: [T; 3])
        ensures
            r@ =~= self@.subrange(3, 6),
    {
        [self.inner[3], self.inner[4], self.inner[5]]
    }

    /// The mass: the last component.
    pub fn mass(&self) -> (r: T)
        ensures
            r == self@[6],
    {
        self.inner[6]
    }
}

/// A spatial velocity or acceleration: an angular part (3 components)
/// followed by a linear part (3 components).
pub struct SpatialMotion<T> {
    inner: [T; 6],
}

impl<T: Copy> View for SpatialMotion<T> {
    type V = Seq<T>;

    closed spec fn view(&self) -> Seq<T> {
        self.inner@
    }
}

impl<T: Copy> SpatialMotion<T> {
    /// Packs an angular and a linear part into one spatial motion.
    pub fn new(angular: [T; 3], linear: [T; 3]) -> (r: Self)
        ensures
            r@ =~= angular@ + linear@,
    {
        let inner = [angular[0], angular[1], angular[2], linear[0], linear[1], linear[2]];
        SpatialMotion { inner }
    }

    /// The angular part: the first three components.
    pub fn angular(&self) -> (r: [T; 3])
        ensures
            r@ =~= self@.subrange(0, 3),
    {
        [self.inner[0], self.inner[1], self.inner[2]]
    }

    /// The linear part: the last three components.
    pub fn linear(&self) -> (r: [T; 3])
        ensures
            r@ =~= self@.subrange(3, 6),
    {
        [self.inner[3], self.inner[4], self.inner[5]]
    }
}

} // verus!
