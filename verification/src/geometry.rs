//! A tetrahedral volume mesh: vertices, edges, triangular faces and
//! tetrahedral cells, each carrying data and its incidences.
use vstd::prelude::*;

verus! {

struct Vertex<T> {
    data: T,
    incident_edge: usize,
}

struct Edge<T> {
    data: T,
    vertices: [usize; 2],
    incident_face: usize,
}

struct Face<T> {
    data: T,
    edges: [usize; 3],
    incident_cells: [usize; 2],
}

struct Cell<T> {
    data: T,
    faces: [usize; 4],
}

/// A volume mesh with vertex data `V`, edge data `E`, face data `F` and cell
/// data `C`.
pub struct VolumeMesh<V, E, F, C> {
    vertices: Vec<Vertex<V>>,
    edges: Vec<Edge<E>>,
    faces: Vec<Face<F>>,
    cells: Vec<Cell<C>>,
}

impl<V, E, F, C> VolumeMesh<V, E, F, C> {
    pub closed spec fn num_vertices(&self) -> nat {
        self.vertices@.len()
    }

    pub closed spec fn num_edges(&self) -> nat {
        self.edges@.len()
    }

    pub closed spec fn num_faces(&self) -> nat {
        self.faces@.len()
    }

    pub closed spec fn num_cells(&self) -> nat {
        self.cells@.len()
    }

    /// An empty mesh.
    pub fn new() -> (r: Self)
        ensures
            r.num_vertices() == 0,
            r.num_edges() == 0,
            r.num_faces() == 0,
            r.num_cells() == 0,
    {
        VolumeMesh { vertices: Vec::new(), edges: Vec::new(), faces: Vec::new(), cells: Vec::new() }
    }
}

impl<V, E, F, C> Default for VolumeMesh<V, E, F, C> {
    fn default() -> (r: Self)
        ensures
            r.num_vertices() == 0,
            r.num_edges() == 0,
            r.num_faces() == 0,
            r.num_cells() == 0,
    {
        Self::new()
    }
}

} // verus!
