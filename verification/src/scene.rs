use vstd::prelude::*;
use crate::material::Material;
use crate::object::Object;
use crate::shape::Shape;

verus! {

/// A list of objects, and the light that reaches a ray from beyond them.
pub struct Scene<S: Shape, M: Material<Ray = S::Ray, Hit = S::Hit>, E: Fn(S::Ray) -> M::Color> {
    objects: Vec<Object<S, M>>,
    environment: E,
}

/// The nearest hit of a partial scan: the index of the object that it lies on,
/// and the hit itself.
pub type Nearest<H> = Option<(int, H)>;

/// The index of the object that `nearest` lies on.
pub open spec fn owner_of<H>(nearest: Nearest<H>) -> Option<int> {
    match nearest {
        Some((index, _)) => Some(index),
        None => None,
    }
}

/// The nearest hit once the object at `index` was tested: what it `found`, or
/// else what was nearest `before`.
pub open spec fn advance<H>(before: Nearest<H>, index: int, found: Option<H>) -> Nearest<H> {
    match found {
        Some(hit) => Some((index, hit)),
        None => before,
    }
}

/// The hit of `nearest`, without the object.
pub open spec fn hit_of<H>(nearest: Nearest<H>) -> Option<H> {
    match nearest {
        Some((_, hit)) => Some(hit),
        None => None,
    }
}

impl<S: Shape, M: Material<Ray = S::Ray, Hit = S::Hit>, E: Fn(S::Ray) -> M::Color> View for Scene<
    S,
    M,
    E,
> {
    type V = Seq<Object<S, M>>;

    /// The objects, in the order in which they were added.
    closed spec fn view(&self) -> Seq<Object<S, M>> {
        self.objects@
    }
}

impl<S: Shape, M: Material<Ray = S::Ray, Hit = S::Hit>, E: Fn(S::Ray) -> M::Color> Scene<S, M, E> {
    /// The function that gives the light from beyond the objects.
    pub closed spec fn environment(&self) -> E {
        self.environment
    }

    /// The environment can be asked about every ray.
    pub open spec fn wf(&self) -> bool {
        forall|ray: S::Ray| self.environment().requires((ray,))
    }

    /// `found` is a value that the shape of the object at `index` returns
    /// when `ray` is tested against it with `closest` as the nearest hit so
    /// far.
    pub open spec fn tested(
        &self,
        index: int,
        ray: S::Ray,
        closest: Option<S::Hit>,
        found: Option<S::Hit>,
    ) -> bool {
        call_ensures(S::intersect, (&self@[index].shape, ray, closest), found)
    }

    /// `nearest` is what a scan along `ray` has found once the first `count`
    /// objects were tested in order, each against the nearest hit before it.
    pub open spec fn scanned(&self, ray: S::Ray, count: nat, nearest: Nearest<S::Hit>) -> bool
        decreases count,
    {
        if count == 0 {
            nearest is None
        } else {
            exists|before: Nearest<S::Hit>, found: Option<S::Hit>|
                #![trigger self.tested(count - 1, ray, hit_of(before), found)]
                self.scanned(ray, (count - 1) as nat, before) && self.tested(
                    count - 1,
                    ray,
                    hit_of(before),
                    found,
                ) && nearest == advance(before, count - 1, found)
        }
    }

    /// `scattered` is a result of resolving `ray` against the scene: `None`
    /// where a scan of all objects finds no hit, and otherwise what the
    /// material of the object with the nearest hit returns for that hit.
    pub open spec fn resolved(&self, ray: S::Ray, scattered: Option<(S::Ray, M::Color)>) -> bool {
        exists|nearest: Nearest<S::Hit>| #[trigger]
            self.scanned(ray, self@.len(), nearest) && match nearest {
                None => scattered is None,
                Some((index, hit)) => scattered is Some && call_ensures(
                    M::scatter,
                    (&self@[index].material, hit),
                    scattered->0,
                ),
            }
    }

    proof fn lemma_scan_step(
        &self,
        ray: S::Ray,
        count: nat,
        before: Nearest<S::Hit>,
        found: Option<S::Hit>,
    )
        requires
            count > 0,
            self.scanned(ray, (count - 1) as nat, before),
            self.tested(count - 1, ray, hit_of(before), found),
        ensures
            self.scanned(ray, count, advance(before, count - 1, found)),
    {
    }

    /// A ray meets nothing in a scene without objects.
    pub proof fn lemma_empty_scene_has_no_hit(
        &self,
        ray: S::Ray,
        scattered: Option<(S::Ray, M::Color)>,
    )
        requires
            self@.len() == 0,
            self.resolved(ray, scattered),
        ensures
            scattered is None,
    {
    }

    /// A scene without objects, lit by `environment`.
    pub fn new(environment: E) -> (scene: Self)
        requires
            forall|ray: S::Ray| environment.requires((ray,)),
        ensures
            scene.wf(),
            scene@ == Seq::<Object<S, M>>::empty(),
            scene.environment() == environment,
    {
        Scene { objects: Vec::new(), environment }
    }

    /// Adds `object` behind the objects that the scene holds.
    pub fn add_object(&mut self, object: Object<S, M>)
        ensures
            final(self)@ == old(self)@.push(object),
            final(self).environment() == old(self).environment(),
    {
        self.objects.push(object);
    }

    /// Resolves `ray` against the objects: the ray and attenuation that the
    /// nearest object's material scatters, or `None` where the ray meets
    /// nothing.
    pub fn hit_closest_object(&self, ray: S::Ray) -> (scattered: Option<(S::Ray, M::Color)>)
        ensures
            self.resolved(ray, scattered),
            self@.len() == 0 ==> scattered is None,
    {
        let mut closest: Option<S::Hit> = None;
        let mut owner: Option<usize> = None;
        let ghost mut nearest: Nearest<S::Hit> = None;
        let mut index: usize = 0;
        while index < self.objects.len()
            invariant
                index <= self.objects@.len(),
                self.scanned(ray, index as nat, nearest),
                closest == hit_of(nearest),
                owner is Some <==> nearest is Some,
                owner is Some ==> owner_of(nearest) == Some(owner->0 as int) && owner->0 < index,
            decreases self.objects@.len() - index,
        {
            let found = self.objects[index].shape.intersect(ray, closest);
            let ghost before = nearest;
            if let Some(hit) = found {
                closest = Some(hit);
                owner = Some(index);
                proof {
                    nearest = Some((index as int, hit));
                }
            }
            index = index + 1;
            proof {
                self.lemma_scan_step(ray, index as nat, before, found);
            }
        }
        match owner {
            Some(at) => {
                let hit = closest.unwrap();
                Some(self.objects[at].material.scatter(hit))
            },
            None => None,
        }
    }

    /// The light that reaches `ray` from beyond the objects.
    pub fn get_environment_light(&self, ray: S::Ray) -> (light: M::Color)
        requires
            self.wf(),
        ensures
            self.environment().ensures((ray,), light),
    {
        (self.environment)(ray)
    }
}

} // verus!
