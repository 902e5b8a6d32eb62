//! The render queue: drawable records collected each frame, and the
//! fixed-capacity visibility pass that feeds the renderer.
//!
//! Two lists are kept: a static one that persists across frames until the
//! scene tears down, and a dynamic one cleared by every visibility pass.
//! The pass walks static records first, then dynamic ones, keeps those the
//! frustum admits, and fills a fixed array of `VISIBLE_CAPACITY` slots;
//! records beyond the capacity are dropped in iteration order.

use vstd::prelude::*;

use crate::frustum::{spec_visible, Frustum, ObjectBound};
use crate::geom::{Vec3, Vec4, FP_ONE};

verus! {

/// How many drawable records one frame may hand to the renderer.
pub const VISIBLE_CAPACITY: usize = 70;

/// The shape a drawable record asks the renderer to draw.
#[derive(Clone, Copy, PartialEq, Eq, Structural, Debug)]
pub enum ShapeType {
    NoShape,
    Cuboid,
    Sphere,
    Cylinder,
    Swordman,
    Gunman,
}

impl ShapeType {
    /// The numeric id the GPU side of the renderer expects for this shape.
    pub open spec fn spec_id(self) -> u32 {
        match self {
            ShapeType::NoShape => 0,
            ShapeType::Cuboid => 1,
            ShapeType::Sphere => 2,
            ShapeType::Cylinder => 3,
            ShapeType::Swordman => 4,
            ShapeType::Gunman => 5,
        }
    }

    pub fn id(&self) -> (r: u32)
        ensures
            r == self.spec_id(),
    {
        match self {
            ShapeType::NoShape => 0,
            ShapeType::Cuboid => 1,
            ShapeType::Sphere => 2,
            ShapeType::Cylinder => 3,
            ShapeType::Swordman => 4,
            ShapeType::Gunman => 5,
        }
    }
}

/// The material a drawable record is textured with.
#[derive(Clone, Copy, PartialEq, Eq, Structural, Debug)]
pub enum MaterialType {
    Green,
    Yellow,
    White,
    Black,
    Checker,
    Red,
    Orange,
    Crate,
    Pebbles,
    CobblestonePaving,
    Container,
    Target,
    Grass,
    StoneWall,
}

impl MaterialType {
    /// The numeric id the GPU side of the renderer expects for this
    /// material.
    pub open spec fn spec_id(self) -> u32 {
        match self {
            MaterialType::Green => 0,
            MaterialType::Yellow => 1,
            MaterialType::White => 2,
            MaterialType::Black => 3,
            MaterialType::Checker => 4,
            MaterialType::Red => 5,
            MaterialType::Orange => 6,
            MaterialType::Crate => 7,
            MaterialType::Pebbles => 8,
            MaterialType::CobblestonePaving => 9,
            MaterialType::Container => 10,
            MaterialType::Target => 11,
            MaterialType::Grass => 12,
            MaterialType::StoneWall => 13,
        }
    }

    pub fn id(&self) -> (r: u32)
        ensures
            r == self.spec_id(),
    {
        match self {
            MaterialType::Green => 0,
            MaterialType::Yellow => 1,
            MaterialType::White => 2,
            MaterialType::Black => 3,
            MaterialType::Checker => 4,
            MaterialType::Red => 5,
            MaterialType::Orange => 6,
            MaterialType::Crate => 7,
            MaterialType::Pebbles => 8,
            MaterialType::CobblestonePaving => 9,
            MaterialType::Container => 10,
            MaterialType::Target => 11,
            MaterialType::Grass => 12,
            MaterialType::StoneWall => 13,
        }
    }
}

/// The shape of a record together with its up to three material ids.
#[derive(Clone, Copy, PartialEq, Eq, Structural, Debug)]
pub struct ShapeMaterials {
    pub shape: ShapeType,
    pub material_0: MaterialType,
    pub material_1: MaterialType,
    pub material_2: MaterialType,
}

/// One drawable record: transform, shape, up to three materials, and two
/// generic shape-data slots. The unverified rim copies it, padded to the
/// GPU layout, into the upload buffer.
#[derive(Clone, Copy, PartialEq, Eq, Structural, Debug)]
pub struct RenderQueueData {
    pub position: Vec3,
    pub scale: Vec3,
    /// Facing direction in fixed point; forward (`+z`) when unrotated.
    pub rotation: Vec3,
    pub shape_data1: Vec4,
    pub shape_data2: Vec4,
    pub shape_type_material_ids: ShapeMaterials,
}

impl RenderQueueData {
    /// The inert record every slot starts from.
    pub open spec fn spec_new_none() -> RenderQueueData {
        RenderQueueData {
            position: Vec3 { x: 0, y: 0, z: 0 },
            scale: Vec3 { x: 0, y: 0, z: 0 },
            rotation: Vec3 { x: 0, y: 0, z: FP_ONE },
            shape_data1: Vec4 { x: 0, y: 0, z: 0, w: 0 },
            shape_data2: Vec4 { x: 0, y: 0, z: 0, w: 0 },
            shape_type_material_ids: ShapeMaterials {
                shape: ShapeType::NoShape,
                material_0: MaterialType::Red,
                material_1: MaterialType::Red,
                material_2: MaterialType::Red,
            },
        }
    }

    pub fn new_none() -> (r: RenderQueueData)
        ensures
            r == RenderQueueData::spec_new_none(),
    {
        RenderQueueData {
            position: Vec3 { x: 0, y: 0, z: 0 },
            scale: Vec3 { x: 0, y: 0, z: 0 },
            rotation: Vec3 { x: 0, y: 0, z: FP_ONE },
            shape_data1: Vec4 { x: 0, y: 0, z: 0, w: 0 },
            shape_data2: Vec4 { x: 0, y: 0, z: 0, w: 0 },
            shape_type_material_ids: ShapeMaterials {
                shape: ShapeType::NoShape,
                material_0: MaterialType::Red,
                material_1: MaterialType::Red,
                material_2: MaterialType::Red,
            },
        }
    }
}

/// The records of `s`, in order, whose bound the frustum admits.
pub open spec fn visible_records(f: Frustum, s: Seq<(RenderQueueData, ObjectBound)>) -> Seq<
    RenderQueueData,
>
    decreases s.len(),
{
    if s.len() == 0 {
        Seq::empty()
    } else {
        let rest = visible_records(f, s.drop_last());
        if spec_visible(f, s.last().0.position, s.last().1) {
            rest.push(s.last().0)
        } else {
            rest
        }
    }
}

/// The per-frame render queue: a dynamic list rebuilt every frame and a
/// static list that persists until the scene clears it.
pub struct RenderObjects {
    pub render_objects: Vec<(RenderQueueData, ObjectBound)>,
    pub render_objects_static: Vec<(RenderQueueData, ObjectBound)>,
}

impl RenderObjects {
    /// All candidate records in the order the visibility pass walks them:
    /// static first, then dynamic.
    pub open spec fn spec_all(self) -> Seq<(RenderQueueData, ObjectBound)> {
        self.render_objects_static@ + self.render_objects@
    }

    pub fn new() -> (r: RenderObjects)
        ensures
            r.render_objects@ == Seq::<(RenderQueueData, ObjectBound)>::empty(),
            r.render_objects_static@ == Seq::<(RenderQueueData, ObjectBound)>::empty(),
    {
        RenderObjects { render_objects: Vec::new(), render_objects_static: Vec::new() }
    }

    /// Borrow the dynamic record at `index` for mutation.
    pub fn get_mut(&mut self, index: usize) -> (r: &mut (RenderQueueData, ObjectBound))
        requires
            index < old(self).render_objects@.len(),
        ensures
            *r == old(self).render_objects@[index as int],
            final(self).render_objects@ == old(self).render_objects@.update(
                index as int,
                *final(r),
            ),
            final(self).render_objects_static@ == old(self).render_objects_static@,
    {
        &mut self.render_objects[index]
    }

    /// Borrow the static record at `index` for mutation.
    pub fn get_mut_static(&mut self, index: usize) -> (r: &mut (RenderQueueData, ObjectBound))
        requires
            index < old(self).render_objects_static@.len(),
        ensures
            *r == old(self).render_objects_static@[index as int],
            final(self).render_objects_static@ == old(self).render_objects_static@.update(
                index as int,
                *final(r),
            ),
            final(self).render_objects@ == old(self).render_objects@,
    {
        &mut self.render_objects_static[index]
    }

    /// Append an inert dynamic record and borrow it for the caller to fill.
    pub fn next(&mut self) -> (r: &mut (RenderQueueData, ObjectBound))
        ensures
            *r == (RenderQueueData::spec_new_none(), ObjectBound::NoBound),
            final(self).render_objects@.len() == old(self).render_objects@.len() + 1,
            forall|i: int|
                0 <= i < old(self).render_objects@.len() ==> final(self).render_objects@[i]
                    == old(self).render_objects@[i],
            final(self).render_objects@.last() == *final(r),
            final(self).render_objects_static@ == old(self).render_objects_static@,
    {
        let length = self.render_objects.len();
        self.render_objects.push((RenderQueueData::new_none(), ObjectBound::NoBound));
        &mut self.render_objects[length]
    }

    /// Append an inert static record and borrow it for the caller to fill.
    pub fn next_static(&mut self) -> (r: &mut (RenderQueueData, ObjectBound))
        ensures
            *r == (RenderQueueData::spec_new_none(), ObjectBound::NoBound),
            final(self).render_objects_static@.len() == old(self).render_objects_static@.len()
                + 1,
            forall|i: int|
                0 <= i < old(self).render_objects_static@.len()
                    ==> final(self).render_objects_static@[i]
                    == old(self).render_objects_static@[i],
            final(self).render_objects_static@.last() == *final(r),
            final(self).render_objects@ == old(self).render_objects@,
    {
        let length = self.render_objects_static.len();
        self.render_objects_static.push((RenderQueueData::new_none(), ObjectBound::NoBound));
        &mut self.render_objects_static[length]
    }

    /// Drop every record, static and dynamic; run on scene teardown.
    pub fn clear(&mut self)
        ensures
            final(self).render_objects@ == Seq::<(RenderQueueData, ObjectBound)>::empty(),
            final(self).render_objects_static@ == Seq::<(RenderQueueData, ObjectBound)>::empty(),
    {
        self.render_objects.clear();
        self.render_objects_static.clear();
    }

    /// The per-frame visibility pass.
    ///
    /// Walks static records then dynamic ones, keeps those the frustum
    /// admits, and writes them in that order into a fixed array of
    /// `VISIBLE_CAPACITY` slots; records past the capacity are dropped.
    /// Returns the array and the count of slots written, and clears the
    /// dynamic list; the static list is kept.
    pub fn get_objects_and_active_len(&mut self, frustum: &Frustum) -> (res: (
        Vec<RenderQueueData>,
        usize,
    ))
        ensures
            res.0@.len() == VISIBLE_CAPACITY,
            res.1 as int == vstd::math::min(
                visible_records(*frustum, old(self).spec_all()).len() as int,
                VISIBLE_CAPACITY as int,
            ),
            res.0@.take(res.1 as int) == visible_records(*frustum, old(self).spec_all()).take(
                res.1 as int,
            ),
            forall|j: int|
                res.1 <= j < VISIBLE_CAPACITY ==> res.0@[j] == RenderQueueData::spec_new_none(),
            final(self).render_objects@ == Seq::<(RenderQueueData, ObjectBound)>::empty(),
            final(self).render_objects_static@ == old(self).render_objects_static@,
    {
        let ghost st0 = self.render_objects_static@;
        let ghost dy0 = self.render_objects@;
        let ghost all0 = st0 + dy0;
        let mut resulted: Vec<RenderQueueData> = Vec::new();
        let mut f: usize = 0;
        while f < VISIBLE_CAPACITY
            invariant
                f <= VISIBLE_CAPACITY,
                resulted@.len() == f,
                forall|j: int| 0 <= j < f ==> resulted@[j] == RenderQueueData::spec_new_none(),
            decreases VISIBLE_CAPACITY - f,
        {
            resulted.push(RenderQueueData::new_none());
            f = f + 1;
        }
        let mut index: usize = 0;
        let mut i: usize = 0;
        while i < self.render_objects_static.len()
            invariant
                self.render_objects_static@ == st0,
                self.render_objects@ == dy0,
                i <= st0.len(),
                resulted@.len() == VISIBLE_CAPACITY,
                index <= VISIBLE_CAPACITY,
                index as int == vstd::math::min(
                    visible_records(*frustum, st0.take(i as int)).len() as int,
                    VISIBLE_CAPACITY as int,
                ),
                forall|k: int|
                    0 <= k < index ==> resulted@[k] == visible_records(
                        *frustum,
                        st0.take(i as int),
                    )[k],
                forall|k: int|
                    index <= k < VISIBLE_CAPACITY ==> resulted@[k]
                        == RenderQueueData::spec_new_none(),
            decreases st0.len() - i,
        {
            let pair = self.render_objects_static[i];
            let ghost pre = visible_records(*frustum, st0.take(i as int));
            proof {
                assert(st0.take(i + 1 as int).drop_last() == st0.take(i as int));
                assert(st0.take(i + 1 as int).last() == st0[i as int]);
            }
            if frustum.is_on_frustum(&pair.0.position, &pair.1) {
                if index < VISIBLE_CAPACITY {
                    resulted[index] = pair.0;
                    index = index + 1;
                }
            }
            i = i + 1;
        }
        proof {
            assert(st0.take(st0.len() as int) == st0);
            assert(all0.take(st0.len() as int) == st0);
        }
        let mut j: usize = 0;
        while j < self.render_objects.len()
            invariant
                self.render_objects_static@ == st0,
                self.render_objects@ == dy0,
                all0 == st0 + dy0,
                j <= dy0.len(),
                resulted@.len() == VISIBLE_CAPACITY,
                index <= VISIBLE_CAPACITY,
                index as int == vstd::math::min(
                    visible_records(*frustum, all0.take(st0.len() + j as int)).len() as int,
                    VISIBLE_CAPACITY as int,
                ),
                forall|k: int|
                    0 <= k < index ==> resulted@[k] == visible_records(
                        *frustum,
                        all0.take(st0.len() + j as int),
                    )[k],
                forall|k: int|
                    index <= k < VISIBLE_CAPACITY ==> resulted@[k]
                        == RenderQueueData::spec_new_none(),
            decreases dy0.len() - j,
        {
            let pair = self.render_objects[j];
            proof {
                assert(all0.take(st0.len() + (j + 1) as int).drop_last() == all0.take(
                    st0.len() + j as int,
                ));
                assert(all0.take(st0.len() + (j + 1) as int).last() == all0[st0.len() + j as int]);
                assert(all0[st0.len() + j as int] == dy0[j as int]);
            }
            if frustum.is_on_frustum(&pair.0.position, &pair.1) {
                if index < VISIBLE_CAPACITY {
                    resulted[index] = pair.0;
                    index = index + 1;
                }
            }
            j = j + 1;
        }
        proof {
            assert(all0.take(st0.len() + dy0.len() as int) == all0);
            let vis = visible_records(*frustum, all0);
            assert(resulted@.take(index as int) =~= vis.take(index as int));
        }
        self.render_objects.clear();
        (resulted, index)
    }
}

} // verus!
