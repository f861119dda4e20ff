//! A scene as a list of spheres, and the search for the nearest hit.

use vstd::prelude::*;
use crate::interval::Interval;
use crate::scalar::Scalar;
use crate::sphere::{Quadratic, Sphere};

verus! {

/// The objects of a scene, in the order in which they were added.
pub struct HittableList {
    pub objects: Vec<Sphere>,
}

/// Which object a ray hits first, and where along the ray.
#[derive(Clone, Copy, Debug, PartialEq, Eq, Structural)]
pub struct Nearest {
    pub index: usize,
    pub t: Scalar,
}

/// No equation of `equations` has a root within `ray_t`.
pub open spec fn all_miss(equations: Seq<Quadratic>, ray_t: Interval) -> bool {
    forall|j: int| 0 <= j < equations.len() ==> (#[trigger] equations[j]).root(ray_t).is_none()
}

/// `n` names the first of the nearest hits within `ray_t`: its object is
/// hit at `n.t`, no object is hit before `n.t`, and every object before
/// it in the list is hit later or not at all.
pub open spec fn is_nearest(equations: Seq<Quadratic>, ray_t: Interval, n: Nearest) -> bool {
    &&& n.index < equations.len()
    &&& equations[n.index as int].root(ray_t) == Some(n.t)
    &&& forall|j: int|
        0 <= j < equations.len() && (#[trigger] equations[j]).root(ray_t).is_some() ==> n.t.spec_le(
            equations[j].root(ray_t).unwrap(),
        )
    &&& forall|j: int|
        0 <= j < n.index && (#[trigger] equations[j]).root(ray_t).is_some() ==> n.t.spec_lt(
            equations[j].root(ray_t).unwrap(),
        )
}

/// At most one hit is the first of the nearest: two that are name the
/// same object and the same parameter.
pub proof fn lemma_nearest_is_unique(
    equations: Seq<Quadratic>,
    ray_t: Interval,
    a: Nearest,
    b: Nearest,
)
    requires
        is_nearest(equations, ray_t, a),
        is_nearest(equations, ray_t, b),
    ensures
        a == b,
{
    let ia = a.index as int;
    let ib = b.index as int;
    assert(equations[ia].root(ray_t).is_some());
    assert(equations[ib].root(ray_t).is_some());
    if ia < ib {
        assert(b.t.spec_lt(a.t));
        assert(a.t.spec_le(b.t));
    } else if ib < ia {
        assert(a.t.spec_lt(b.t));
        assert(b.t.spec_le(a.t));
    }
}

/// Where some object is hit within `ray_t`, not all of them miss.
pub proof fn lemma_nearest_excludes_miss(equations: Seq<Quadratic>, ray_t: Interval, n: Nearest)
    requires
        is_nearest(equations, ray_t, n),
    ensures
        !all_miss(equations, ray_t),
{
    assert(equations[n.index as int].root(ray_t).is_some());
}

impl HittableList {
    /// The scene's objects as a sequence.
    pub open spec fn view(&self) -> Seq<Sphere> {
        self.objects@
    }

    /// A scene without objects.
    pub fn new() -> (list: HittableList)
        ensures
            list@ == Seq::<Sphere>::empty(),
    {
        HittableList { objects: Vec::new() }
    }

    /// Puts `object` at the end of the scene.
    pub fn add(&mut self, object: Sphere)
        ensures
            final(self)@ == old(self)@.push(object),
    {
        self.objects.push(object);
    }

    /// The nearest hit of one ray within `ray_t`. `equations` holds, for
    /// each object in turn, the ray's equation with it. The objects are
    /// tried in order, each only up to the nearest hit found before it; what
    /// comes out is the first of the nearest hits that the objects have
    /// within all of `ray_t`, or nothing where none has one.
    pub fn hit(&self, equations: &Vec<Quadratic>, ray_t: &Interval) -> (r: Option<Nearest>)
        requires
            equations.len() == self@.len(),
            forall|j: int| 0 <= j < equations.len() ==> (#[trigger] equations[j]).well_formed(),
        ensures
            r.is_none() <==> all_miss(equations@, *ray_t),
            r.is_some() ==> is_nearest(equations@, *ray_t, r.unwrap()),
            r.is_some() ==> ray_t.spec_surrounds(r.unwrap().t),
            r.is_some() ==> r.unwrap().index < self@.len(),
    {
        let mut best: Option<Nearest> = None;
        let mut closest_so_far = ray_t.max;
        let mut i: usize = 0;
        while i < equations.len()
            invariant
                i <= equations.len(),
                forall|j: int| 0 <= j < equations.len() ==> (#[trigger] equations[j]).well_formed(),
                best.is_none() ==> closest_so_far == ray_t.max,
                best.is_none() ==> forall|j: int|
                    0 <= j < i ==> (#[trigger] equations[j]).root(*ray_t).is_none(),
                best.is_some() ==> {
                    let n = best.unwrap();
                    &&& closest_so_far == n.t
                    &&& n.index < i
                    &&& equations[n.index as int].root(*ray_t) == Some(n.t)
                    &&& forall|j: int|
                        0 <= j < i && (#[trigger] equations[j]).root(*ray_t).is_some()
                            ==> n.t.spec_le(equations[j].root(*ray_t).unwrap())
                    &&& forall|j: int|
                        0 <= j < n.index && (#[trigger] equations[j]).root(*ray_t).is_some()
                            ==> n.t.spec_lt(equations[j].root(*ray_t).unwrap())
                },
            decreases equations.len() - i,
        {
            let narrowed = Interval { min: ray_t.min, max: closest_so_far };
            match Sphere::hit(&equations[i], &narrowed) {
                Some(t) => {
                    best = Some(Nearest { index: i, t });
                    closest_so_far = t;
                },
                None => {},
            }
            i += 1;
        }
        best
    }
}

} // verus!
