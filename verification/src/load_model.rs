//! Loading and exporting a drawing: which kind of file a path names, and
//! the table of rows that stands for a drawing in a delimited file.

use vstd::prelude::*;
use vstd::string::StringSliceAdditionalSpecFns;
use crate::model::copy_of;
use crate::model::Model;
use crate::model::ModelView;
use crate::model::Point;
use crate::model::Position;
use crate::model::Primitive;

verus! {

/// The kinds of file that hold a drawing.
#[derive(Clone, Copy, Debug, PartialEq, Eq, Structural)]
pub enum ModelFile {
    /// A table of rows, delimited by tabs; its name ends in `csv`.
    Csv,
    /// A file of the solver library; its name ends in `mke`.
    Bin,
}

/// The bytes of `csv`.
pub open spec fn csv_ending() -> Seq<u8> {
    seq![99u8, 115u8, 118u8]
}

/// The bytes of `mke`.
pub open spec fn bin_ending() -> Seq<u8> {
    seq![109u8, 107u8, 101u8]
}

/// The kind of file that `path` names, by its last three bytes; none
/// for a path of fewer than `shortest` bytes.
pub open spec fn file_kind(path: Seq<u8>, shortest: int) -> Option<ModelFile> {
    if path.len() < 3 || path.len() < shortest {
        None
    } else if path.subrange(path.len() - 3, path.len() as int) == csv_ending() {
        Some(ModelFile::Csv)
    } else if path.subrange(path.len() - 3, path.len() as int) == bin_ending() {
        Some(ModelFile::Bin)
    } else {
        None
    }
}

/// What `str::trim` makes of a text: the text without the white space
/// at its two ends.
pub uninterp spec fn trimmed(text: Seq<char>) -> Seq<char>;

/// Calls `str::trim`, which returns the part of the text that is left
/// when the white space at both ends is taken off. Which characters
/// count as white space is Unicode's matter, so the result is named
/// rather than spelled out.
#[verifier::external_body]
fn trim(text: &str) -> (inner: &str)
    ensures
        inner@ == trimmed(text@),
{
    text.trim()
}

/// The kind of file that `path` names, by its last three bytes; none
/// for a path of fewer than `shortest` bytes.
pub fn kind_of(path: &[u8], shortest: usize) -> (kind: Option<ModelFile>)
    ensures
        kind == file_kind(path@, shortest as int),
{
    let count = path.len();
    if count < 3 || count < shortest {
        return None;
    }
    let ghost ending = path@.subrange(count - 3, count as int);
    assert(ending[0] == path@[count - 3] && ending[1] == path@[count - 2] && ending[2]
        == path@[count - 1]);
    if path[count - 3] == 99 && path[count - 2] == 115 && path[count - 1] == 118 {
        assert(ending =~= csv_ending());
        Some(ModelFile::Csv)
    } else if path[count - 3] == 109 && path[count - 2] == 107 && path[count - 1] == 101 {
        assert(ending =~= bin_ending());
        Some(ModelFile::Bin)
    } else {
        assert(csv_ending()[0] == 99 && csv_ending()[1] == 115 && csv_ending()[2] == 118);
        assert(bin_ending()[0] == 109 && bin_ending()[1] == 107 && bin_ending()[2] == 101);
        None
    }
}

/// The kind of file to open for `path`: the path is trimmed, and must
/// then have three bytes at least.
pub fn open_kind(path: &str) -> (kind: Option<ModelFile>)
    ensures
        kind == file_kind(vstd::utf8::encode_utf8(trimmed(path@)), 3),
{
    kind_of(trim(path).as_bytes(), 3)
}

/// The kind of file to export to for `path`: the path is trimmed, and
/// must then have four bytes at least, one for a name before the ending.
pub fn export_kind(path: &str) -> (kind: Option<ModelFile>)
    ensures
        kind == file_kind(vstd::utf8::encode_utf8(trimmed(path@)), 4),
{
    kind_of(trim(path).as_bytes(), 4)
}

/// The mesh that the solver library laid over a drawing: its nodes and
/// the triangles between them.
#[derive(Debug)]
pub struct Mesh {
    pub node_points: Vec<Position>,
    pub node_lines: Vec<Primitive>,
}

/// The mathematical content of a [`Mesh`].
pub struct MeshView {
    pub node_points: Seq<Position>,
    pub node_lines: Seq<Primitive>,
}

impl View for Mesh {
    type V = MeshView;

    open spec fn view(&self) -> MeshView {
        MeshView { node_points: self.node_points@, node_lines: self.node_lines@ }
    }
}

impl Clone for Mesh {
    fn clone(&self) -> (copy: Mesh)
        ensures
            copy@ == self@,
    {
        let node_points = self.node_points.clone();
        assert(node_points@ =~= self.node_points@);
        Mesh { node_points, node_lines: copy_of(&self.node_lines) }
    }
}

impl Default for Mesh {
    /// A mesh without nodes.
    fn default() -> (mesh: Mesh)
        ensures
            mesh@.node_points == Seq::<Position>::empty(),
            mesh@.node_lines == Seq::<Primitive>::empty(),
    {
        Mesh { node_points: Vec::new(), node_lines: Vec::new() }
    }
}

/// One row of the table that stands for a drawing. A row holds, each
/// only where the table has one at that row: a point (`p1`, `p2` its
/// position, `p3` its radius), a primitive (`l1` to `l3`), a node of the
/// mesh (`n_p1`, `n_p2`) and a triangle of the mesh (`n_l1` to `n_l3`).
#[derive(Clone, Copy, Debug, PartialEq, Eq, Structural)]
pub struct Csv {
    pub p1: Option<i32>,
    pub p2: Option<i32>,
    pub p3: Option<i32>,
    pub l1: Option<i32>,
    pub l2: Option<i32>,
    pub l3: Option<i32>,
    pub n_p1: Option<i32>,
    pub n_p2: Option<i32>,
    pub n_l1: Option<i32>,
    pub n_l2: Option<i32>,
    pub n_l3: Option<i32>,
}

/// The entry of `entries` at `index`, if there is one.
pub open spec fn entry<T>(entries: Seq<T>, index: int) -> Option<T> {
    if 0 <= index < entries.len() {
        Some(entries[index])
    } else {
        None
    }
}

impl Csv {
    /// The row that holds what is given.
    pub open spec fn row(
        dots: Option<Point>,
        lines: Option<Primitive>,
        node_dots: Option<Position>,
        node_lines: Option<Primitive>,
    ) -> Csv {
        Csv {
            p1: match dots {
                Some(point) => Some(point.position.x),
                None => None,
            },
            p2: match dots {
                Some(point) => Some(point.position.y),
                None => None,
            },
            p3: match dots {
                Some(point) => Some(point.radius),
                None => None,
            },
            l1: match lines {
                Some(line) => Some(line.0),
                None => None,
            },
            l2: match lines {
                Some(line) => Some(line.1),
                None => None,
            },
            l3: match lines {
                Some(line) => Some(line.2),
                None => None,
            },
            n_p1: match node_dots {
                Some(node) => Some(node.x),
                None => None,
            },
            n_p2: match node_dots {
                Some(node) => Some(node.y),
                None => None,
            },
            n_l1: match node_lines {
                Some(line) => Some(line.0),
                None => None,
            },
            n_l2: match node_lines {
                Some(line) => Some(line.1),
                None => None,
            },
            n_l3: match node_lines {
                Some(line) => Some(line.2),
                None => None,
            },
        }
    }

    /// The point that the row holds: it holds one where all three of its
    /// values are there.
    pub open spec fn point(self) -> Option<Point> {
        match (self.p1, self.p2, self.p3) {
            (Some(x), Some(y), Some(radius)) => Some(Point { position: Position { x, y }, radius }),
            _ => None,
        }
    }

    /// The primitive that the row holds.
    pub open spec fn line(self) -> Option<Primitive> {
        match (self.l1, self.l2, self.l3) {
            (Some(a), Some(b), Some(c)) => Some((a, b, c)),
            _ => None,
        }
    }

    /// The node of the mesh that the row holds.
    pub open spec fn node_point(self) -> Option<Position> {
        match (self.n_p1, self.n_p2) {
            (Some(x), Some(y)) => Some(Position { x, y }),
            _ => None,
        }
    }

    /// The triangle of the mesh that the row holds.
    pub open spec fn node_line(self) -> Option<Primitive> {
        match (self.n_l1, self.n_l2, self.n_l3) {
            (Some(a), Some(b), Some(c)) => Some((a, b, c)),
            _ => None,
        }
    }

    /// The row that holds what is given.
    pub fn new(
        dots: Option<Point>,
        lines: Option<Primitive>,
        node_dots: Option<Position>,
        node_lines: Option<Primitive>,
    ) -> (row: Csv)
        ensures
            row == Csv::row(dots, lines, node_dots, node_lines),
    {
        let (p1, p2, p3) = match dots {
            None => (None, None, None),
            Some(point) => (Some(point.position.x), Some(point.position.y), Some(point.radius)),
        };
        let (l1, l2, l3) = match lines {
            None => (None, None, None),
            Some(line) => (Some(line.0), Some(line.1), Some(line.2)),
        };
        let (n_p1, n_p2) = match node_dots {
            None => (None, None),
            Some(node) => (Some(node.x), Some(node.y)),
        };
        let (n_l1, n_l2, n_l3) = match node_lines {
            None => (None, None, None),
            Some(line) => (Some(line.0), Some(line.1), Some(line.2)),
        };
        Csv { p1, p2, p3, l1, l2, l3, n_p1, n_p2, n_l1, n_l2, n_l3 }
    }
}

/// The row at `index` of the table that stands for a drawing and its
/// mesh.
pub open spec fn row_at(model: ModelView, mesh: MeshView, index: int) -> Csv {
    Csv::row(
        entry(model.points, index),
        entry(model.prims, index),
        entry(mesh.node_points, index),
        entry(mesh.node_lines, index),
    )
}

/// The number of rows of the table that stands for a drawing and its
/// mesh: one for each point or, if those are more, for each node.
pub open spec fn row_count(model: ModelView, mesh: MeshView) -> nat {
    if mesh.node_points.len() >= model.points.len() {
        mesh.node_points.len()
    } else {
        model.points.len()
    }
}

/// The points that the rows hold, in the order of the rows.
pub open spec fn points_in(rows: Seq<Csv>) -> Seq<Point>
    decreases rows.len(),
{
    if rows.len() == 0 {
        Seq::empty()
    } else {
        match rows.last().point() {
            Some(point) => points_in(rows.drop_last()).push(point),
            None => points_in(rows.drop_last()),
        }
    }
}

/// The primitives that the rows hold, in the order of the rows.
pub open spec fn lines_in(rows: Seq<Csv>) -> Seq<Primitive>
    decreases rows.len(),
{
    if rows.len() == 0 {
        Seq::empty()
    } else {
        match rows.last().line() {
            Some(line) => lines_in(rows.drop_last()).push(line),
            None => lines_in(rows.drop_last()),
        }
    }
}

/// The nodes that the rows hold, in the order of the rows.
pub open spec fn node_points_in(rows: Seq<Csv>) -> Seq<Position>
    decreases rows.len(),
{
    if rows.len() == 0 {
        Seq::empty()
    } else {
        match rows.last().node_point() {
            Some(node) => node_points_in(rows.drop_last()).push(node),
            None => node_points_in(rows.drop_last()),
        }
    }
}

/// The triangles that the rows hold, in the order of the rows.
pub open spec fn node_lines_in(rows: Seq<Csv>) -> Seq<Primitive>
    decreases rows.len(),
{
    if rows.len() == 0 {
        Seq::empty()
    } else {
        match rows.last().node_line() {
            Some(line) => node_lines_in(rows.drop_last()).push(line),
            None => node_lines_in(rows.drop_last()),
        }
    }
}

/// The table that stands for a drawing and its mesh.
pub open spec fn table_of(model: ModelView, mesh: MeshView) -> Seq<Csv> {
    Seq::new(row_count(model, mesh), |index: int| row_at(model, mesh, index))
}

/// The first `count` entries of `entries`, or all of them where there
/// are fewer.
pub open spec fn first_of<T>(entries: Seq<T>, count: int) -> Seq<T> {
    if count >= entries.len() {
        entries
    } else {
        entries.subrange(0, count)
    }
}

/// What the first `count` rows of a table hold is what the first `count`
/// indices of the drawing and of the mesh hold.
proof fn lemma_rows_hold(model: ModelView, mesh: MeshView, count: int)
    requires
        0 <= count <= row_count(model, mesh),
    ensures
        points_in(table_of(model, mesh).subrange(0, count)) == first_of(model.points, count),
        lines_in(table_of(model, mesh).subrange(0, count)) == first_of(model.prims, count),
        node_points_in(table_of(model, mesh).subrange(0, count)) == first_of(
            mesh.node_points,
            count,
        ),
        node_lines_in(table_of(model, mesh).subrange(0, count)) == first_of(
            mesh.node_lines,
            count,
        ),
    decreases count,
{
    let rows = table_of(model, mesh).subrange(0, count);
    if count == 0 {
        assert(first_of(model.points, count) =~= Seq::<Point>::empty());
        assert(first_of(model.prims, count) =~= Seq::<Primitive>::empty());
        assert(first_of(mesh.node_points, count) =~= Seq::<Position>::empty());
        assert(first_of(mesh.node_lines, count) =~= Seq::<Primitive>::empty());
    } else {
        lemma_rows_hold(model, mesh, count - 1);
        assert(rows.drop_last() =~= table_of(model, mesh).subrange(0, count - 1));
        assert(rows.last() == row_at(model, mesh, count - 1));
        assert(points_in(rows) =~= first_of(model.points, count));
        assert(lines_in(rows) =~= first_of(model.prims, count));
        assert(node_points_in(rows) =~= first_of(mesh.node_points, count));
        assert(node_lines_in(rows) =~= first_of(mesh.node_lines, count));
    }
}

/// A table gives back what it was made from: every point and every node,
/// and of the primitives and of the triangles as many as the table has
/// rows.
pub proof fn lemma_table_gives_back(model: ModelView, mesh: MeshView)
    ensures
        points_in(table_of(model, mesh)) == model.points,
        node_points_in(table_of(model, mesh)) == mesh.node_points,
        lines_in(table_of(model, mesh)) == first_of(model.prims, row_count(model, mesh) as int),
        node_lines_in(table_of(model, mesh)) == first_of(
            mesh.node_lines,
            row_count(model, mesh) as int,
        ),
{
    let rows = table_of(model, mesh);
    lemma_rows_hold(model, mesh, row_count(model, mesh) as int);
    assert(rows.subrange(0, rows.len() as int) =~= rows);
}

/// The entry of `entries` at `index`, if there is one.
fn get<T: Copy>(entries: &Vec<T>, index: usize) -> (found: Option<T>)
    ensures
        found == entry(entries@, index as int),
{
    if index < entries.len() {
        Some(entries[index])
    } else {
        None
    }
}

/// The table that stands for a drawing and its mesh. Row by row it holds
/// the point, the primitive, the node and the triangle of that index; it
/// has a row for each point or, if those are more, for each node, so
/// that primitives and triangles beyond that are left out.
pub fn export_rows(model: &Model, mesh: &Mesh) -> (rows: Vec<Csv>)
    ensures
        rows@ == table_of(model@, mesh@),
{
    let max_len = if mesh.node_points.len() >= model.points.len() {
        mesh.node_points.len()
    } else {
        model.points.len()
    };
    let mut rows: Vec<Csv> = Vec::new();
    let mut i: usize = 0;
    while i < max_len
        invariant
            i <= max_len,
            max_len == row_count(model@, mesh@),
            rows@.len() == i,
            forall|k: int| 0 <= k < i ==> #[trigger] rows@[k] == row_at(model@, mesh@, k),
        decreases max_len - i,
    {
        rows.push(
            Csv::new(
                get(&model.points, i),
                get(&model.prims, i),
                get(&mesh.node_points, i),
                get(&mesh.node_lines, i),
            ),
        );
        i += 1;
    }
    assert(rows@ =~= table_of(model@, mesh@));
    rows
}

/// The drawing and the mesh that a table stands for: each row gives a
/// point, a primitive, a node and a triangle, each only where all its
/// values are there. Nothing is checked of what the primitives
/// reference.
pub fn import_rows(rows: &Vec<Csv>) -> (loaded: (Model, Mesh))
    ensures
        loaded.0@.points == points_in(rows@),
        loaded.0@.prims == lines_in(rows@),
        loaded.1@.node_points == node_points_in(rows@),
        loaded.1@.node_lines == node_lines_in(rows@),
{
    let mut dots: Vec<Point> = Vec::new();
    let mut lines: Vec<Primitive> = Vec::new();
    let mut node_dots: Vec<Position> = Vec::new();
    let mut node_lines: Vec<Primitive> = Vec::new();
    let mut i: usize = 0;
    assert(rows@.subrange(0, 0) =~= Seq::<Csv>::empty());
    while i < rows.len()
        invariant
            i <= rows@.len(),
            dots@ == points_in(rows@.subrange(0, i as int)),
            lines@ == lines_in(rows@.subrange(0, i as int)),
            node_dots@ == node_points_in(rows@.subrange(0, i as int)),
            node_lines@ == node_lines_in(rows@.subrange(0, i as int)),
        decreases rows@.len() - i,
    {
        let rec = rows[i];
        assert(rows@.subrange(0, i + 1).drop_last() =~= rows@.subrange(0, i as int));
        assert(rows@.subrange(0, i + 1).last() == rec);
        match (rec.p1, rec.p2, rec.p3) {
            (Some(p1), Some(p2), Some(p3)) => {
                dots.push(Point { position: Position { x: p1, y: p2 }, radius: p3 });
            },
            _ => {},
        }
        match (rec.l1, rec.l2, rec.l3) {
            (Some(l1), Some(l2), Some(l3)) => {
                lines.push((l1, l2, l3));
            },
            _ => {},
        }
        match (rec.n_p1, rec.n_p2) {
            (Some(np1), Some(np2)) => {
                node_dots.push(Position { x: np1, y: np2 });
            },
            _ => {},
        }
        match (rec.n_l1, rec.n_l2, rec.n_l3) {
            (Some(n_l1), Some(n_l2), Some(n_l3)) => {
                node_lines.push((n_l1, n_l2, n_l3));
            },
            _ => {},
        }
        i += 1;
    }
    assert(rows@.subrange(0, i as int) =~= rows@);
    (Model { points: dots, prims: lines }, Mesh { node_points: node_dots, node_lines })
}

} // verus!
