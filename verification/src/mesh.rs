//! The quad meshes that patches are drawn with.
//!
//! A mesh is a square grid of quads over the unit square, two triangles per
//! quad. Vertices are held by their grid coordinates; the host divides them
//! by the number of cells per side when it uploads them.

use vstd::prelude::*;

verus! {

/// Indices of the two triangles of a single quad.
pub const QUAD_INDICES: [u16; 6] = [0, 1, 2, 2, 3, 0];

/// Largest number of splits for which every vertex has a 16-bit index.
pub const MAX_SPLITS: u32 = 254;

/// A vertex of a grid mesh: its column and its row.
#[derive(Clone, Copy, Debug, PartialEq, Eq, Structural)]
pub struct GridVertex {
    pub column: u32,
    pub row: u32,
}

/// A grid mesh on the host.
#[derive(Clone, Debug)]
pub struct Mesh {
    /// Number of cells per side.
    pub cells: u32,
    /// The vertices, row by row.
    pub vertices: Vec<GridVertex>,
    /// Three indices per triangle.
    pub indices: Vec<u16>,
    /// Number of indices.
    pub num_indices: u32,
}

/// The vertex with number `k` in a grid of `cells` cells per side.
pub open spec fn grid_vertex(cells: int, k: int) -> GridVertex {
    GridVertex { column: (k % (cells + 1)) as u32, row: (k / (cells + 1)) as u32 }
}

/// Number of the vertex at `column` and `row`.
pub open spec fn vertex_number(cells: int, column: int, row: int) -> int {
    row * (cells + 1) + column
}

/// The `corner`-th of the six indices of the cell at `column` and `row`: the
/// cell's corners are taken counter-clockwise from its lowest vertex, and the
/// two triangles share the diagonal.
pub open spec fn cell_corner(cells: int, column: int, row: int, corner: int) -> int {
    if corner == 0 || corner == 5 {
        vertex_number(cells, column, row)
    } else if corner == 1 {
        vertex_number(cells, column + 1, row)
    } else if corner == 2 || corner == 3 {
        vertex_number(cells, column + 1, row + 1)
    } else {
        vertex_number(cells, column, row + 1)
    }
}

/// The two bytes `first` and `second` hold `value`, in either byte order.
pub open spec fn pair_encodes(first: u8, second: u8, value: u16) -> bool {
    first + 256 * second == value || 256 * first + second == value
}

/// The bytes of 16-bit indices, as they lie in memory.
///
/// Calls `bytemuck::cast_slice`, which views the slice of indices as a slice
/// of bytes without changing them: two bytes per index, in the byte order of
/// the machine.
#[verifier::external_body]
fn cast_indices(indices: &Vec<u16>) -> (bytes: Vec<u8>)
    ensures
        bytes@.len() == 2 * indices@.len(),
        forall|i: int|
            0 <= i < indices@.len() ==> pair_encodes(
                #[trigger] bytes@[2 * i],
                bytes@[2 * i + 1],
                indices@[i],
            ),
{
    let bytes: &[u8] = bytemuck::cast_slice(indices.as_slice());
    bytes.to_vec()
}

impl Mesh {
    /// The mesh is a complete grid: it has every vertex of its grid, row by
    /// row, and the six indices of every cell, row by row.
    pub open spec fn wf(self) -> bool {
        let cells = self.cells as int;
        &&& 1 <= cells <= MAX_SPLITS + 1
        &&& self.vertices@.len() == (cells + 1) * (cells + 1)
        &&& forall|k: int|
            0 <= k < self.vertices@.len() ==> #[trigger] self.vertices@[k] == grid_vertex(cells, k)
        &&& self.indices@.len() == 6 * cells * cells
        &&& self.num_indices == self.indices@.len()
        &&& forall|row: int, column: int, corner: int|
            0 <= row < cells && 0 <= column < cells && 0 <= corner < 6
                ==> #[trigger] self.indices@[6 * (row * cells + column) + corner] == cell_corner(
                cells,
                column,
                row,
                corner,
            )
    }

    /// A single quad: four vertices and the two triangles of `QUAD_INDICES`.
    pub fn new_quad() -> (mesh: Mesh)
        ensures
            mesh.cells == 1,
            mesh.vertices@ == seq![
                GridVertex { column: 0, row: 0 },
                GridVertex { column: 1, row: 0 },
                GridVertex { column: 1, row: 1 },
                GridVertex { column: 0, row: 1 },
            ],
            mesh.indices@ == QUAD_INDICES@,
            mesh.num_indices == 6,
    {
        let mut vertices: Vec<GridVertex> = Vec::new();
        vertices.push(GridVertex { column: 0, row: 0 });
        vertices.push(GridVertex { column: 1, row: 0 });
        vertices.push(GridVertex { column: 1, row: 1 });
        vertices.push(GridVertex { column: 0, row: 1 });
        let mut indices: Vec<u16> = Vec::new();
        let mut i: usize = 0;
        while i < 6
            invariant
                i <= 6,
                indices@.len() == i,
                forall|k: int| 0 <= k < i ==> #[trigger] indices@[k] == QUAD_INDICES@[k],
            decreases 6 - i,
        {
            indices.push(QUAD_INDICES[i]);
            i = i + 1;
        }
        assert(indices@ =~= QUAD_INDICES@);
        Mesh { cells: 1, vertices, indices, num_indices: 6 }
    }

    /// A quad split `splits` times along each side: a grid of `splits + 1`
    /// cells per side.
    pub fn new_tesselated_quad(splits: u32) -> (mesh: Mesh)
        requires
            splits <= MAX_SPLITS,
        ensures
            mesh.wf(),
            mesh.cells == splits + 1,
            mesh.num_indices == 6 * (splits + 1) * (splits + 1),
            forall|i: int| 0 <= i < mesh.indices@.len() ==> (#[trigger] mesh.indices@[i])
                < mesh.vertices@.len(),
    {
        let cells: u32 = splits + 1;
        let side: u32 = cells + 1;
        let ghost n = cells as int;
        let mut vertices: Vec<GridVertex> = Vec::new();
        let mut row: u32 = 0;
        while row < side
            invariant
                row <= side,
                side == n + 1,
                1 <= n <= 255,
                vertices@.len() == row * (n + 1),
                forall|k: int| 0 <= k < vertices@.len() ==> #[trigger] vertices@[k] == grid_vertex(n, k),
            decreases side - row,
        {
            let mut column: u32 = 0;
            while column < side
                invariant
                    column <= side,
                    row < side,
                    side == n + 1,
                    1 <= n <= 255,
                    vertices@.len() == row * (n + 1) + column,
                    forall|k: int|
                        0 <= k < vertices@.len() ==> #[trigger] vertices@[k] == grid_vertex(n, k),
                decreases side - column,
            {
                proof {
                    lemma_row_column(n + 1, row as int, column as int);
                }
                vertices.push(GridVertex { column, row });
                column = column + 1;
            }
            assert((row + 1) * (n + 1) == row * (n + 1) + (n + 1)) by (nonlinear_arith);
            row = row + 1;
        }
        let mut indices: Vec<u16> = Vec::new();
        let mut row: u32 = 0;
        while row < cells
            invariant
                row <= cells,
                cells == n,
                1 <= n <= 255,
                indices@.len() == 6 * (row * n),
                forall|r: int, c: int, corner: int|
                    0 <= r < row && 0 <= c < n && 0 <= corner < 6 ==> #[trigger] indices@[6 * (r * n
                        + c) + corner] == cell_corner(n, c, r, corner),
                forall|i: int| 0 <= i < indices@.len() ==> (#[trigger] indices@[i]) < (n + 1) * (n + 1),
            decreases cells - row,
        {
            let mut column: u32 = 0;
            while column < cells
                invariant
                    column <= cells,
                    row < cells,
                    cells == n,
                    1 <= n <= 255,
                    indices@.len() == 6 * (row * n + column),
                    forall|r: int, c: int, corner: int|
                        (0 <= r < row && 0 <= c < n || r == row && 0 <= c < column) && 0 <= corner < 6
                            ==> #[trigger] indices@[6 * (r * n + c) + corner] == cell_corner(
                            n,
                            c,
                            r,
                            corner,
                        ),
                    forall|i: int|
                        0 <= i < indices@.len() ==> (#[trigger] indices@[i]) < (n + 1) * (n + 1),
                decreases cells - column,
            {
                proof {
                    lemma_corner_bounds(n, row as int, column as int);
                }
                let low: u32 = row * (cells + 1) + column;
                let high: u32 = (row + 1) * (cells + 1) + column;
                let ghost before = indices@;
                indices.push(low as u16);
                indices.push((low + 1) as u16);
                indices.push((high + 1) as u16);
                indices.push((high + 1) as u16);
                indices.push(high as u16);
                indices.push(low as u16);
                proof {
                    let base = 6 * (row * n + column);
                    assert(before.len() == base);
                    assert forall|r: int, c: int, corner: int|
                        (0 <= r < row && 0 <= c < n || r == row && 0 <= c < column + 1) && 0
                            <= corner < 6 implies #[trigger] indices@[6 * (r * n + c) + corner]
                        == cell_corner(n, c, r, corner) by {
                        if r == row && c == column {
                        } else {
                            lemma_cell_order(n, r, c, row as int, column as int);
                            assert(indices@[6 * (r * n + c) + corner] == before[6 * (r * n + c)
                                + corner]);
                        }
                    }
                }
                column = column + 1;
            }
            assert((row + 1) * n == row * n + n) by (nonlinear_arith);
            row = row + 1;
        }
        proof {
            assert(6 * (n * n) == 6 * n * n) by (nonlinear_arith);
            assert((n + 1) * (n + 1) <= 65536) by (nonlinear_arith)
                requires
                    1 <= n <= 255,
            ;
            assert(6 * (n * n) <= 390150) by (nonlinear_arith)
                requires
                    1 <= n <= 255,
            ;
        }
        let num_indices: u32 = indices.len() as u32;
        Mesh { cells, vertices, indices, num_indices }
    }

    /// The indices as the bytes of an index buffer: two bytes per index, in
    /// the byte order of the machine.
    pub fn index_bytes(&self) -> (bytes: Vec<u8>)
        ensures
            bytes@.len() == 2 * self.indices@.len(),
            forall|i: int|
                0 <= i < self.indices@.len() ==> pair_encodes(
                    #[trigger] bytes@[2 * i],
                    bytes@[2 * i + 1],
                    self.indices@[i],
                ),
    {
        cast_indices(&self.indices)
    }
}

/// Numbering the vertices row by row: the vertex after `row` full rows and
/// `column` more has that row and column.
proof fn lemma_row_column(side: int, row: int, column: int)
    requires
        side > 0,
        0 <= row,
        0 <= column < side,
    ensures
        (row * side + column) % side == column,
        (row * side + column) / side == row,
{
    vstd::arithmetic::div_mod::lemma_fundamental_div_mod_converse(
        row * side + column,
        side,
        row,
        column,
    );
}

/// The four corners of a cell are vertices of the grid.
proof fn lemma_corner_bounds(n: int, row: int, column: int)
    requires
        1 <= n <= 255,
        0 <= row < n,
        0 <= column < n,
    ensures
        0 <= row * (n + 1) + column,
        (row + 1) * (n + 1) + column + 1 < (n + 1) * (n + 1),
        (row + 1) * (n + 1) + column + 1 <= 65535,
        row * (n + 1) + column < (row + 1) * (n + 1) + column,
        0 <= row * n + column,
{
    assert((row + 1) * (n + 1) <= n * (n + 1)) by (nonlinear_arith)
        requires
            row + 1 <= n,
            n >= 1,
    ;
    assert((n + 1) * (n + 1) == n * (n + 1) + n + 1) by (nonlinear_arith);
    assert((n + 1) * (n + 1) <= 65536) by (nonlinear_arith)
        requires
            1 <= n <= 255,
    ;
    assert(row * (n + 1) >= 0) by (nonlinear_arith)
        requires
            row >= 0,
            n >= 1,
    ;
    assert((row + 1) * (n + 1) == row * (n + 1) + n + 1) by (nonlinear_arith);
    assert(row * n >= 0) by (nonlinear_arith)
        requires
            row >= 0,
            n >= 1,
    ;
}

/// Cells are numbered row by row: a cell that comes before another has a
/// smaller number.
proof fn lemma_cell_order(n: int, r: int, c: int, row: int, column: int)
    requires
        n >= 1,
        0 <= r,
        0 <= c < n,
        0 <= column < n,
        r < row || (r == row && c < column),
    ensures
        0 <= r * n + c < row * n + column,
{
    assert(r * n >= 0) by (nonlinear_arith)
        requires
            r >= 0,
            n >= 1,
    ;
    if r < row {
        assert((r + 1) * n <= row * n) by (nonlinear_arith)
            requires
                r + 1 <= row,
                n >= 1,
        ;
        assert((r + 1) * n == r * n + n) by (nonlinear_arith);
    }
}

} // verus!
