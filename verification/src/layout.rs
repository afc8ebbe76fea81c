//! The layout model that the export pipeline reads: layers, and cells with
//! their shapes, instances and nets. A cell is known by its position in
//! `cells`, a layer by its position in `layers`.
use vstd::prelude::*;
use crate::geometry::{Geometry, Rect};
use crate::transform::{origin_fits, placement_fits, Transform};

verus! {

/// A layer: its name, if it has one, and the number it has in GDS.
#[derive(Clone, Debug, PartialEq, Eq)]
pub struct Layer {
    pub name: Option<String>,
    pub index: i16,
}

/// A shape on a layer.
#[derive(Clone, Debug, PartialEq, Eq)]
pub struct Shape {
    pub layer: usize,
    pub geometry: Geometry,
}

/// A placement of the cell `template` inside another cell.
#[derive(Clone, Debug, PartialEq, Eq)]
pub struct CellInstance {
    pub template: usize,
    pub transform: Transform,
    pub name: Option<String>,
}

/// A net of a cell with the shapes that belong to it. A constant net is one
/// tied to a fixed level, such as power or ground.
#[derive(Clone, Debug, PartialEq, Eq)]
pub struct Net {
    pub constant: bool,
    pub shapes: Vec<Shape>,
}

/// A cell: its shapes, the instances of other cells in it, its nets, and the
/// box around all that it draws, if it draws anything.
#[derive(Clone, Debug, PartialEq, Eq)]
pub struct Cell {
    pub name: String,
    pub shapes: Vec<Shape>,
    pub instances: Vec<CellInstance>,
    pub nets: Vec<Net>,
    pub bounding_box: Option<Rect>,
}

/// A layout.
#[derive(Clone, Debug, PartialEq, Eq)]
pub struct LayoutModel {
    pub layers: Vec<Layer>,
    pub cells: Vec<Cell>,
}

impl LayoutModel {
    /// Whether each of the shapes lies on a layer of the model.
    pub open spec fn shapes_wf(&self, shapes: Seq<Shape>) -> bool {
        forall|i: int| 0 <= i < shapes.len() ==> (#[trigger] shapes[i]).layer < self.layers.len()
    }

    /// Whether each of the nets has its shapes on layers of the model.
    pub open spec fn nets_wf(&self, nets: Seq<Net>) -> bool {
        forall|i: int| 0 <= i < nets.len() ==> self.shapes_wf((#[trigger] nets[i]).shapes@)
    }

    /// Whether the reference for the instance has its origin in the GDS
    /// plane, where the instance names a cell that has a bounding box.
    pub open spec fn instance_fits(&self, inst: CellInstance) -> bool {
        inst.template < self.cells.len() ==> (self.cells[inst.template as int].bounding_box matches Some(
            b,
        ) ==> origin_fits(inst.transform, b))
    }

    /// Whether each of the instances fits.
    pub open spec fn instances_fit(&self, instances: Seq<CellInstance>) -> bool {
        forall|i: int| 0 <= i < instances.len() ==> self.instance_fits(#[trigger] instances[i])
    }

    /// Whether a cell has its shapes on layers of the model and instances
    /// that fit.
    pub open spec fn cell_valid(&self, cell: Cell) -> bool {
        &&& self.shapes_wf(cell.shapes@)
        &&& self.nets_wf(cell.nets@)
        &&& self.instances_fit(cell.instances@)
    }

    /// Whether the model can be exported: every shape lies on a layer of the
    /// model, and no reference would have its origin outside the GDS plane.
    pub open spec fn valid(&self) -> bool {
        forall|c: int| 0 <= c < self.cells.len() ==> self.cell_valid(#[trigger] self.cells[c])
    }

    fn shapes_ok(&self, shapes: &Vec<Shape>) -> (b: bool)
        ensures
            b == self.shapes_wf(shapes@),
    {
        let mut i: usize = 0;
        while i < shapes.len()
            invariant
                i <= shapes.len(),
                forall|k: int| 0 <= k < i ==> (#[trigger] shapes[k]).layer < self.layers.len(),
            decreases shapes.len() - i,
        {
            if shapes[i].layer >= self.layers.len() {
                return false;
            }
            i += 1;
        }
        true
    }

    fn nets_ok(&self, nets: &Vec<Net>) -> (b: bool)
        ensures
            b == self.nets_wf(nets@),
    {
        let mut i: usize = 0;
        while i < nets.len()
            invariant
                i <= nets.len(),
                forall|k: int| 0 <= k < i ==> self.shapes_wf((#[trigger] nets[k]).shapes@),
            decreases nets.len() - i,
        {
            if !self.shapes_ok(&nets[i].shapes) {
                return false;
            }
            i += 1;
        }
        true
    }

    fn instances_ok(&self, instances: &Vec<CellInstance>) -> (b: bool)
        ensures
            b == self.instances_fit(instances@),
    {
        let mut i: usize = 0;
        while i < instances.len()
            invariant
                i <= instances.len(),
                forall|k: int| 0 <= k < i ==> self.instance_fits(#[trigger] instances[k]),
            decreases instances.len() - i,
        {
            let inst = &instances[i];
            if inst.template < self.cells.len() {
                match self.cells[inst.template].bounding_box {
                    Some(b) => {
                        if !placement_fits(&inst.transform, &b) {
                            return false;
                        }
                    },
                    None => {},
                }
            }
            i += 1;
        }
        true
    }

    /// Tells whether the model is valid.
    pub fn is_valid(&self) -> (b: bool)
        ensures
            b == self.valid(),
    {
        let mut c: usize = 0;
        while c < self.cells.len()
            invariant
                c <= self.cells.len(),
                forall|k: int| 0 <= k < c ==> self.cell_valid(#[trigger] self.cells[k]),
            decreases self.cells.len() - c,
        {
            let cell = &self.cells[c];
            if !self.shapes_ok(&cell.shapes) || !self.nets_ok(&cell.nets) || !self.instances_ok(
                &cell.instances,
            ) {
                return false;
            }
            c += 1;
        }
        true
    }
}

} // verus!
