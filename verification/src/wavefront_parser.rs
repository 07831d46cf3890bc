//! The polygon mesh: vertices, texture coordinates, normals and faces.

use crate::linear_algebra::{index_views, Point3, Vec3Unsigned, COORDINATE_LIMIT};
use crate::wavefront_text::{
    decimal_of, find_byte, index_of, parse_decimal, parse_index, split_words, word_views, words,
    LoadError,
};
use vstd::prelude::*;
use vstd::slice::{slice_subrange, slice_to_vec};

verus! {

/// Whether `value` stays below the coordinate limit in magnitude.
pub open spec fn within_limit(value: i64) -> bool {
    -COORDINATE_LIMIT < value < COORDINATE_LIMIT
}

/// Whether `value`, where it is given, stays below the coordinate limit.
pub open spec fn within_limit_if_given(value: Option<i64>) -> bool {
    match value {
        Some(v) => within_limit(v),
        None => true,
    }
}

/// A texture coordinate: `u`, and `v` and `w` where the mesh gives them.
#[derive(Debug, Clone, Copy, PartialEq, Eq, Structural)]
pub struct TextureUV {
    pub u: i64,
    pub v: Option<i64>,
    pub w: Option<i64>,
}

impl TextureUV {
    /// The texture coordinate `(u, v, w)`.
    pub fn new(u: i64, v: Option<i64>, w: Option<i64>) -> (uv: Self)
        ensures
            uv == (TextureUV { u, v, w }),
    {
        Self { u, v, w }
    }

    /// Whether all components stay below the coordinate limit.
    pub open spec fn bounded(&self) -> bool {
        within_limit(self.u) && within_limit_if_given(self.v) && within_limit_if_given(self.w)
    }

    /// The components `u` and `v` of a coordinate that has both.
    pub fn unravel_uv_impl(&self) -> (pair: (i64, i64))
        requires
            self.v is Some,
        ensures
            pair == (self.u, self.v->0),
    {
        (self.u, self.v.unwrap())
    }
}

/// A vertex of the mesh: a position, and a weight where the mesh gives one.
#[derive(Debug, Clone, Copy, PartialEq, Eq, Structural)]
pub struct Vertex {
    pub xyz: Point3,
    pub w: Option<i64>,
}

impl Vertex {
    /// The vertex at the position `triplet` with the weight `w`.
    pub fn new(triplet: (i64, i64, i64), w: Option<i64>) -> (vertex: Self)
        ensures
            vertex == (Vertex { xyz: Point3(triplet.0, triplet.1, triplet.2), w }),
    {
        let (x, y, z) = triplet;
        Self { xyz: Point3(x, y, z), w }
    }
}

impl vstd::std_specs::ops::SubSpecImpl for Vertex {
    open spec fn obeys_sub_spec() -> bool {
        true
    }

    open spec fn sub_req(self, rhs: Vertex) -> bool {
        &&& i64::MIN <= self.xyz.0 - rhs.xyz.0 <= i64::MAX
        &&& i64::MIN <= self.xyz.1 - rhs.xyz.1 <= i64::MAX
        &&& i64::MIN <= self.xyz.2 - rhs.xyz.2 <= i64::MAX
    }

    open spec fn sub_spec(self, rhs: Vertex) -> Point3 {
        Point3(
            (self.xyz.0 - rhs.xyz.0) as i64,
            (self.xyz.1 - rhs.xyz.1) as i64,
            (self.xyz.2 - rhs.xyz.2) as i64,
        )
    }
}

/// `a - b` is the vector from the position of `b` to the position of `a`.
impl std::ops::Sub for Vertex {
    type Output = Point3;

    fn sub(self, rhs: Vertex) -> Point3 {
        let (x, y, z) = self.xyz.unravel();
        let (xo, yo, zo) = rhs.xyz.unravel();
        Point3(*x - *xo, *y - *yo, *z - *zo)
    }
}

/// A vertex in the parameter space of a surface.
#[derive(Debug, Clone, Copy, PartialEq, Eq, Structural)]
pub struct SpaceVertex {
    pub u: i64,
    pub v: Option<i64>,
    pub w: Option<i64>,
}

impl SpaceVertex {
    /// The parameter-space vertex `(u, v, w)`.
    pub fn new(u: i64, v: Option<i64>, w: Option<i64>) -> (vertex: Self)
        ensures
            vertex == (SpaceVertex { u, v, w }),
    {
        Self { u, v, w }
    }
}

/// Three indices, one per corner of a face; each may be absent.
pub type FaceTriplet = (Option<usize>, Option<usize>, Option<usize>);

/// A triangular face: for each corner the index of its vertex, of its texture
/// coordinate and of its normal, counted from one.
#[derive(Debug, Clone, Copy)]
pub struct FaceElement {
    pub vertex_triplet: FaceTriplet,
    pub texture_triplet: FaceTriplet,
    pub normal_triplet: FaceTriplet,
}

impl FaceElement {
    /// The face with the given indices.
    pub fn new(
        vertex_triplet: FaceTriplet,
        texture_triplet: FaceTriplet,
        normal_triplet: FaceTriplet,
    ) -> (face: Self)
        ensures
            face == (FaceElement { vertex_triplet, texture_triplet, normal_triplet }),
    {
        Self { vertex_triplet, texture_triplet, normal_triplet }
    }
}

/// Whether all three indices of a triplet are present.
pub open spec fn complete(triplet: FaceTriplet) -> bool {
    triplet.0 is Some && triplet.1 is Some && triplet.2 is Some
}

/// The three indices of a triplet that has all three.
pub open spec fn triplet_of(triplet: FaceTriplet) -> Option<Vec3Unsigned> {
    if complete(triplet) {
        Some(Vec3Unsigned(triplet.0->0, triplet.1->0, triplet.2->0))
    } else {
        None
    }
}

/// The three indices of a triplet that has all three.
pub fn complete_triplet(triplet: FaceTriplet) -> (indices: Option<Vec3Unsigned>)
    ensures
        indices == triplet_of(triplet),
{
    if triplet.0.is_some() && triplet.1.is_some() && triplet.2.is_some() {
        Some(Vec3Unsigned::new(triplet.0.unwrap(), triplet.1.unwrap(), triplet.2.unwrap()))
    } else {
        None
    }
}

/// The triplets of `triplets` that are complete, in their order.
pub open spec fn complete_triplets(triplets: Seq<FaceTriplet>) -> Seq<Vec3Unsigned>
    decreases triplets.len(),
{
    if triplets.len() == 0 {
        Seq::empty()
    } else {
        let rest = complete_triplets(triplets.drop_last());
        let last = triplets.last();
        if complete(last) {
            rest.push(Vec3Unsigned(last.0->0, last.1->0, last.2->0))
        } else {
            rest
        }
    }
}

/// The item that the index `u`, counted from one, names in `items`.
pub open spec fn lookup<T>(items: Seq<T>, u: int) -> Option<T> {
    if 1 <= u <= items.len() {
        Some(items[u - 1])
    } else {
        None
    }
}

/// The numbers that the words from the place `from` up to the place `until`
/// write, or the first reason why one of them writes none.
pub open spec fn numbers_upto(found: Seq<Seq<u8>>, from: int, until: int) -> Result<
    Seq<i64>,
    LoadError,
>
    decreases until - from,
{
    if until <= from {
        Ok(Seq::empty())
    } else {
        match numbers_upto(found, from, until - 1) {
            Err(e) => Err(e),
            Ok(numbers) => match decimal_of(found[until - 1]) {
                Err(e) => Err(e),
                Ok(number) => Ok(numbers.push(number)),
            },
        }
    }
}

/// The fields of a record that must have `required` numbers and may have
/// `optional` more: the words behind the keyword, as numbers. A record that
/// is too short is reported before a word that writes no number.
pub open spec fn record_numbers(found: Seq<Seq<u8>>, required: int, optional: int) -> Result<
    Seq<i64>,
    LoadError,
> {
    if found.len() < 1 + required {
        Err(LoadError::MissingField)
    } else if found.len() < 1 + required + optional {
        numbers_upto(found, 1, found.len() as int)
    } else {
        numbers_upto(found, 1, 1 + required + optional)
    }
}

/// The number at the place `i` of `numbers`, if there is one.
pub open spec fn optional_number(numbers: Seq<i64>, i: int) -> Option<i64> {
    if i < numbers.len() {
        Some(numbers[i])
    } else {
        None
    }
}

/// The indices that the words from the place `from` up to the place `until`
/// write, or the report of the first that writes none.
pub open spec fn indices_upto(found: Seq<Seq<u8>>, from: int, until: int) -> Result<
    Seq<usize>,
    LoadError,
>
    decreases until - from,
{
    if until <= from {
        Ok(Seq::empty())
    } else {
        match indices_upto(found, from, until - 1) {
            Err(e) => Err(e),
            Ok(indices) => match index_of(found[until - 1]) {
                None => Err(LoadError::MalformedNumber),
                Some(index) => Ok(indices.push(index)),
            },
        }
    }
}

/// The index that one part of a face slot writes: none where the part is
/// empty.
pub open spec fn slot_part(part: Seq<u8>) -> Result<Option<usize>, LoadError> {
    if part.len() == 0 {
        Ok(None)
    } else {
        match index_of(part) {
            None => Err(LoadError::MalformedNumber),
            Some(index) => Ok(Some(index)),
        }
    }
}

/// Where the three parts of a face slot start and end: the parts are
/// separated by slashes, and a part that the slot does not reach is empty.
pub open spec fn slot_bounds(slot: Seq<u8>) -> (int, int, int, int, int, int) {
    let n = slot.len() as int;
    let first_end = find_byte(slot, 0, 47);
    let second_start = if first_end < n {
        first_end + 1
    } else {
        n
    };
    let second_end = find_byte(slot, second_start, 47);
    let third_start = if second_end < n {
        second_end + 1
    } else {
        n
    };
    let third_end = find_byte(slot, third_start, 47);
    (0, first_end, second_start, second_end, third_start, third_end)
}

/// The indices of one corner of a face: of its vertex, of its texture
/// coordinate and of its normal.
pub open spec fn slot_of(slot: Seq<u8>) -> Result<FaceTriplet, LoadError> {
    let bounds = slot_bounds(slot);
    match slot_part(slot.subrange(bounds.0, bounds.1)) {
        Err(e) => Err(e),
        Ok(vertex) => match slot_part(slot.subrange(bounds.2, bounds.3)) {
            Err(e) => Err(e),
            Ok(texture) => match slot_part(slot.subrange(bounds.4, bounds.5)) {
                Err(e) => Err(e),
                Ok(normal) => Ok((vertex, texture, normal)),
            },
        },
    }
}

/// The face that a face record describes. A record with fewer than three
/// slots describes none.
pub open spec fn face_of(found: Seq<Seq<u8>>) -> Result<Option<FaceElement>, LoadError> {
    if found.len() < 4 {
        Ok(None)
    } else {
        match slot_of(found[1]) {
            Err(e) => Err(e),
            Ok(first) => match slot_of(found[2]) {
                Err(e) => Err(e),
                Ok(second) => match slot_of(found[3]) {
                    Err(e) => Err(e),
                    Ok(third) => Ok(
                        Some(
                            FaceElement {
                                vertex_triplet: (first.0, second.0, third.0),
                                texture_triplet: (first.1, second.1, third.1),
                                normal_triplet: (first.2, second.2, third.2),
                            },
                        ),
                    ),
                },
            },
        }
    }
}

/// What a mesh file has told so far.
pub struct MeshData {
    pub v: Seq<Vertex>,
    pub vt: Seq<TextureUV>,
    pub vn: Seq<Point3>,
    pub vp: Seq<SpaceVertex>,
    pub f: Seq<FaceElement>,
    pub l: Seq<Seq<usize>>,
}

/// The mesh of a file without records.
pub open spec fn no_data() -> MeshData {
    MeshData {
        v: Seq::empty(),
        vt: Seq::empty(),
        vn: Seq::empty(),
        vp: Seq::empty(),
        f: Seq::empty(),
        l: Seq::empty(),
    }
}

/// Whether the first word of a line is the keyword of one letter `a`.
pub open spec fn starts_with_key(found: Seq<Seq<u8>>, a: u8) -> bool {
    found.len() > 0 && found[0] == seq![a]
}

/// Whether the first word of a line is the keyword of the letters `a`, `b`.
pub open spec fn starts_with_keys(found: Seq<Seq<u8>>, a: u8, b: u8) -> bool {
    found.len() > 0 && found[0] == seq![a, b]
}

/// The vertices after a line: a record `v x y z [w]` adds one.
pub open spec fn read_vertex(v: Seq<Vertex>, found: Seq<Seq<u8>>) -> Result<
    Seq<Vertex>,
    LoadError,
> {
    if starts_with_key(found, 118) {
        match record_numbers(found, 3, 1) {
            Err(e) => Err(e),
            Ok(n) => Ok(
                v.push(Vertex { xyz: Point3(n[0], n[1], n[2]), w: optional_number(n, 3) }),
            ),
        }
    } else {
        Ok(v)
    }
}

/// The texture coordinates after a line: a record `vt u [v] [w]` adds one.
pub open spec fn read_uv(vt: Seq<TextureUV>, found: Seq<Seq<u8>>) -> Result<
    Seq<TextureUV>,
    LoadError,
> {
    if starts_with_keys(found, 118, 116) {
        match record_numbers(found, 1, 2) {
            Err(e) => Err(e),
            Ok(n) => Ok(
                vt.push(TextureUV { u: n[0], v: optional_number(n, 1), w: optional_number(n, 2) }),
            ),
        }
    } else {
        Ok(vt)
    }
}

/// The normals after a line: a record `vn x y z` adds one.
pub open spec fn read_normal(vn: Seq<Point3>, found: Seq<Seq<u8>>) -> Result<
    Seq<Point3>,
    LoadError,
> {
    if starts_with_keys(found, 118, 110) {
        match record_numbers(found, 3, 0) {
            Err(e) => Err(e),
            Ok(n) => Ok(vn.push(Point3(n[0], n[1], n[2]))),
        }
    } else {
        Ok(vn)
    }
}

/// The parameter-space vertices after a line: a record `vp u [v] [w]` adds
/// one.
pub open spec fn read_space_vertex(vp: Seq<SpaceVertex>, found: Seq<Seq<u8>>) -> Result<
    Seq<SpaceVertex>,
    LoadError,
> {
    if starts_with_keys(found, 118, 112) {
        match record_numbers(found, 1, 2) {
            Err(e) => Err(e),
            Ok(n) => Ok(
                vp.push(
                    SpaceVertex { u: n[0], v: optional_number(n, 1), w: optional_number(n, 2) },
                ),
            ),
        }
    } else {
        Ok(vp)
    }
}

/// The polylines after a line: a record `l i j ...` adds one.
pub open spec fn read_polyline(l: Seq<Seq<usize>>, found: Seq<Seq<u8>>) -> Result<
    Seq<Seq<usize>>,
    LoadError,
> {
    if starts_with_key(found, 108) {
        match indices_upto(found, 1, found.len() as int) {
            Err(e) => Err(e),
            Ok(indices) => Ok(l.push(indices)),
        }
    } else {
        Ok(l)
    }
}

/// The faces after a line: a record `f a/b/c a/b/c a/b/c` adds one.
pub open spec fn read_face(f: Seq<FaceElement>, found: Seq<Seq<u8>>) -> Result<
    Seq<FaceElement>,
    LoadError,
> {
    if starts_with_key(found, 102) {
        match face_of(found) {
            Err(e) => Err(e),
            Ok(Some(face)) => Ok(f.push(face)),
            Ok(None) => Ok(f),
        }
    } else {
        Ok(f)
    }
}

/// The mesh after a line of the words `found`. A line that starts with no
/// keyword changes nothing.
pub open spec fn read_line(mesh: MeshData, found: Seq<Seq<u8>>) -> Result<MeshData, LoadError> {
    match read_vertex(mesh.v, found) {
        Err(e) => Err(e),
        Ok(v) => match read_uv(mesh.vt, found) {
            Err(e) => Err(e),
            Ok(vt) => match read_normal(mesh.vn, found) {
                Err(e) => Err(e),
                Ok(vn) => match read_space_vertex(mesh.vp, found) {
                    Err(e) => Err(e),
                    Ok(vp) => match read_polyline(mesh.l, found) {
                        Err(e) => Err(e),
                        Ok(l) => match read_face(mesh.f, found) {
                            Err(e) => Err(e),
                            Ok(f) => Ok(MeshData { v, vt, vn, vp, f, l }),
                        },
                    },
                },
            },
        },
    }
}

/// The mesh after the lines of `text` from the place `from` on, or the first
/// reason why a line cannot be read.
pub open spec fn read_lines(mesh: MeshData, text: Seq<u8>, from: int) -> Result<
    MeshData,
    LoadError,
>
    decreases text.len() + 1 - from,
{
    if from < 0 || from >= text.len() {
        Ok(mesh)
    } else {
        let end = find_byte(text, from, 10);
        proof {
            lemma_find_bounds(text, from, 10);
        }
        match read_line(mesh, words(text.subrange(from, end))) {
            Err(e) => Err(e),
            Ok(next) => read_lines(next, text, end + 1),
        }
    }
}

/// The mesh that the text of a mesh file describes.
pub open spec fn mesh_of(text: Seq<u8>) -> Result<MeshData, LoadError> {
    read_lines(no_data(), text, 0)
}

/// A search stops within the text, at or after the place it starts from.
pub proof fn lemma_find_bounds(s: Seq<u8>, from: int, stop: u8)
    requires
        0 <= from <= s.len(),
    ensures
        from <= find_byte(s, from, stop) <= s.len(),
    decreases s.len() - from,
{
    if from < s.len() {
        lemma_find_bounds(s, from + 1, stop);
    }
}

fn has_key(found: &Vec<Vec<u8>>, a: u8) -> (r: bool)
    ensures
        r == starts_with_key(word_views(*found), a),
{
    if found.len() > 0 && found[0].len() == 1 && found[0][0] == a {
        assert(found@[0]@ =~= seq![a]);
        true
    } else {
        if found.len() > 0 {
            assert(found@[0]@ != seq![a]) by {
                if found@[0]@.len() == 1 {
                    assert(seq![a][0] == a);
                }
            }
        }
        false
    }
}

fn has_keys(found: &Vec<Vec<u8>>, a: u8, b: u8) -> (r: bool)
    ensures
        r == starts_with_keys(word_views(*found), a, b),
{
    if found.len() > 0 && found[0].len() == 2 && found[0][0] == a && found[0][1] == b {
        assert(found@[0]@ =~= seq![a, b]);
        true
    } else {
        if found.len() > 0 {
            assert(found@[0]@ != seq![a, b]) by {
                if found@[0]@.len() == 2 {
                    assert(seq![a, b][0] == a);
                    assert(seq![a, b][1] == b);
                }
            }
        }
        false
    }
}

/// The numbers of a record that must have `required` of them and may have
/// `optional` more.
fn read_numbers(found: &Vec<Vec<u8>>, required: usize, optional: usize) -> (numbers: Result<
    Vec<i64>,
    LoadError,
>)
    requires
        required + optional < 8,
    ensures
        match record_numbers(word_views(*found), required as int, optional as int) {
            Ok(n) => numbers matches Ok(read) && read@ == n,
            Err(e) => numbers == Err::<Vec<i64>, LoadError>(e),
        },
        numbers matches Ok(read) ==> required <= read@.len() <= required + optional && forall|
            i: int,
        |
            0 <= i < read@.len() ==> within_limit(#[trigger] read@[i]),
{
    if found.len() < 1 + required {
        return Err(LoadError::MissingField);
    }
    let until = if found.len() < 1 + required + optional {
        found.len()
    } else {
        1 + required + optional
    };
    let mut read: Vec<i64> = Vec::new();
    let mut i: usize = 1;
    while i < until
        invariant
            1 <= i <= until <= found@.len(),
            found@.len() >= 1 + required,
            until == if found@.len() < 1 + required + optional {
                found@.len() as int
            } else {
                1 + required + optional
            },
            read@.len() == i - 1,
            numbers_upto(word_views(*found), 1, i as int) == Ok::<Seq<i64>, LoadError>(read@),
            forall|k: int| 0 <= k < read@.len() ==> within_limit(#[trigger] read@[k]),
        decreases until - i,
    {
        match parse_decimal(&found[i]) {
            Err(e) => {
                proof {
                    lemma_numbers_error_stays(word_views(*found), 1, i as int + 1, until as int);
                }
                return Err(e);
            },
            Ok(number) => {
                read.push(number);
            },
        }
        i += 1;
    }
    Ok(read)
}

/// Once a word writes no number, the error stays however far the reading was
/// meant to go.
proof fn lemma_numbers_error_stays(found: Seq<Seq<u8>>, from: int, at: int, until: int)
    requires
        from <= at <= until,
        numbers_upto(found, from, at) is Err,
    ensures
        numbers_upto(found, from, until) == numbers_upto(found, from, at),
    decreases until - at,
{
    if at < until {
        lemma_numbers_error_stays(found, from, at, until - 1);
    }
}

/// Once a word writes no index, the error stays however far the reading was
/// meant to go.
proof fn lemma_indices_error_stays(found: Seq<Seq<u8>>, from: int, at: int, until: int)
    requires
        from <= at <= until,
        indices_upto(found, from, at) is Err,
    ensures
        indices_upto(found, from, until) == indices_upto(found, from, at),
    decreases until - at,
{
    if at < until {
        lemma_indices_error_stays(found, from, at, until - 1);
    }
}

/// Reads one part of a face slot: the bytes of `slot` from `from` up to the
/// next slash.
fn parse_slot_part(slot: &Vec<u8>, from: usize) -> (part: (Result<Option<usize>, LoadError>, usize))
    requires
        from <= slot@.len(),
    ensures
        part.1 == find_byte(slot@, from as int, 47),
        from <= part.1 <= slot@.len(),
        part.0 == slot_part(slot@.subrange(from as int, part.1 as int)),
{
    let n = slot.len();
    let mut end = from;
    while end < n && slot[end] != 47
        invariant
            n == slot@.len(),
            from <= end <= n,
            find_byte(slot@, from as int, 47) == find_byte(slot@, end as int, 47),
        decreases n - end,
    {
        end += 1;
    }
    if end == from {
        (Ok(None), end)
    } else {
        let word = slice_to_vec(slice_subrange(slot.as_slice(), from, end));
        match parse_index(&word) {
            None => (Err(LoadError::MalformedNumber), end),
            Some(index) => (Ok(Some(index)), end),
        }
    }
}

/// Reads one slot of a face record: the indices of one corner.
fn parse_single_triplet(slash_seperated: &Vec<u8>) -> (triplet: Result<FaceTriplet, LoadError>)
    ensures
        triplet == slot_of(slash_seperated@),
{
    let n = slash_seperated.len();
    let (vertex_index, first_end) = parse_slot_part(slash_seperated, 0);
    let second_start = if first_end < n {
        first_end + 1
    } else {
        n
    };
    let (texture_index, second_end) = parse_slot_part(slash_seperated, second_start);
    let third_start = if second_end < n {
        second_end + 1
    } else {
        n
    };
    let (normal_index, third_end) = parse_slot_part(slash_seperated, third_start);
    match vertex_index {
        Err(e) => Err(e),
        Ok(vertex) => match texture_index {
            Err(e) => Err(e),
            Ok(texture) => match normal_index {
                Err(e) => Err(e),
                Ok(normal) => Ok((vertex, texture, normal)),
            },
        },
    }
}

/// A polygon mesh as a mesh file describes it.
pub struct WavefronObject {
    v: Vec<Vertex>,
    vt: Vec<TextureUV>,
    vn: Vec<Point3>,
    vp: Vec<SpaceVertex>,
    f: Vec<FaceElement>,
    l: Vec<Vec<usize>>,
}

impl WavefronObject {
    /// Holds of every mesh: the coordinates of its vertices and of its
    /// texture coordinates stay below the coordinate limit.
    #[verifier::type_invariant]
    pub closed spec fn well_formed(&self) -> bool {
        &&& forall|i: int| 0 <= i < self.v@.len() ==> (#[trigger] self.v@[i]).xyz.bounded()
        &&& forall|i: int| 0 <= i < self.vt@.len() ==> (#[trigger] self.vt@[i]).bounded()
    }

    /// What the mesh holds.
    pub closed spec fn data(&self) -> MeshData {
        MeshData {
            v: self.v@,
            vt: self.vt@,
            vn: self.vn@,
            vp: self.vp@,
            f: self.f@,
            l: index_views(self.l),
        }
    }

    /// The vertices, in the order of the mesh file.
    pub open spec fn vertices(&self) -> Seq<Vertex> {
        self.data().v
    }

    /// The texture coordinates, in the order of the mesh file.
    pub open spec fn textures(&self) -> Seq<TextureUV> {
        self.data().vt
    }

    /// The faces, in the order of the mesh file.
    pub open spec fn faces(&self) -> Seq<FaceElement> {
        self.data().f
    }

    /// The vertex indices of every face that has all three of them, in the
    /// order of the faces.
    pub open spec fn vertex_faces(&self) -> Seq<Vec3Unsigned> {
        complete_triplets(self.faces().map_values(|face: FaceElement| face.vertex_triplet))
    }

    /// The texture indices of every face that has all three of them, in the
    /// order of the faces.
    pub open spec fn texture_faces(&self) -> Seq<Vec3Unsigned> {
        complete_triplets(self.faces().map_values(|face: FaceElement| face.texture_triplet))
    }

    /// Reads a mesh from the text of a mesh file.
    ///
    /// The text is read line by line and every line word by word. A line that
    /// starts with one of the keywords `v`, `vt`, `vn`, `vp`, `l` and `f` is a
    /// record; every other line is passed over. A record that is too short,
    /// or holds a word that writes no number where one must stand, or a
    /// number beyond the coordinate limit, ends the reading.
    pub fn new(source: &[u8]) -> (loaded: Result<Self, LoadError>)
        ensures
            match loaded {
                Ok(mesh) => mesh_of(source@) == Ok::<MeshData, LoadError>(mesh.data()),
                Err(e) => mesh_of(source@) == Err::<MeshData, LoadError>(e),
            },
    {
        let mut v: Vec<Vertex> = Vec::new();
        let mut vt: Vec<TextureUV> = Vec::new();
        let mut vn: Vec<Point3> = Vec::new();
        let mut vp: Vec<SpaceVertex> = Vec::new();
        let mut f: Vec<FaceElement> = Vec::new();
        let mut l: Vec<Vec<usize>> = Vec::new();
        let n = source.len();
        let mut at: usize = 0;
        assert(index_views(l) =~= Seq::<Seq<usize>>::empty());
        while at < n
            invariant
                n == source@.len(),
                forall|i: int| 0 <= i < v@.len() ==> (#[trigger] v@[i]).xyz.bounded(),
                forall|i: int| 0 <= i < vt@.len() ==> (#[trigger] vt@[i]).bounded(),
                mesh_of(source@) == read_lines(
                    MeshData { v: v@, vt: vt@, vn: vn@, vp: vp@, f: f@, l: index_views(l) },
                    source@,
                    at as int,
                ),
            decreases n + 1 - at,
        {
            let mut end = at;
            while end < n && source[end] != 10
                invariant
                    n == source@.len(),
                    at <= end <= n,
                    find_byte(source@, at as int, 10) == find_byte(source@, end as int, 10),
                decreases n - end,
            {
                end += 1;
            }
            let found = split_words(slice_subrange(source, at, end));
            let ghost before = MeshData {
                v: v@,
                vt: vt@,
                vn: vn@,
                vp: vp@,
                f: f@,
                l: index_views(l),
            };
            assert(find_byte(source@, at as int, 10) == end);
            assert(read_lines(before, source@, at as int) == match read_line(
                before,
                words(source@.subrange(at as int, end as int)),
            ) {
                Err(e) => Err(e),
                Ok(next) => read_lines(next, source@, end + 1),
            });
            match Self::do_one_round(&found, &mut v, &mut vt, &mut vn, &mut vp, &mut f, &mut l) {
                Err(e) => {
                    return Err(e);
                },
                Ok(_) => {},
            }
            let ghost after = MeshData {
                v: v@,
                vt: vt@,
                vn: vn@,
                vp: vp@,
                f: f@,
                l: index_views(l),
            };
            assert(read_line(before, words(source@.subrange(at as int, end as int))) == Ok::<
                MeshData,
                LoadError,
            >(after));
            if end >= n {
                assert(read_lines(after, source@, end + 1) == read_lines(after, source@, n as int));
                at = n;
            } else {
                at = end + 1;
            }
        }
        let mesh = Self { v, vt, vn, vp, f, l };
        Ok(mesh)
    }

    /// Reads one line: each kind of record looks at the line in turn.
    fn do_one_round(
        found: &Vec<Vec<u8>>,
        v: &mut Vec<Vertex>,
        vt: &mut Vec<TextureUV>,
        vn: &mut Vec<Point3>,
        vp: &mut Vec<SpaceVertex>,
        f: &mut Vec<FaceElement>,
        l: &mut Vec<Vec<usize>>,
    ) -> (done: Result<(), LoadError>)
        requires
            forall|i: int| 0 <= i < old(v)@.len() ==> (#[trigger] old(v)@[i]).xyz.bounded(),
            forall|i: int| 0 <= i < old(vt)@.len() ==> (#[trigger] old(vt)@[i]).bounded(),
        ensures
            match read_line(
                MeshData {
                    v: old(v)@,
                    vt: old(vt)@,
                    vn: old(vn)@,
                    vp: old(vp)@,
                    f: old(f)@,
                    l: index_views(*old(l)),
                },
                word_views(*found),
            ) {
                Ok(mesh) => done is Ok && mesh == (MeshData {
                    v: final(v)@,
                    vt: final(vt)@,
                    vn: final(vn)@,
                    vp: final(vp)@,
                    f: final(f)@,
                    l: index_views(*final(l)),
                }),
                Err(e) => done == Err::<(), LoadError>(e),
            },
            forall|i: int| 0 <= i < final(v)@.len() ==> (#[trigger] final(v)@[i]).xyz.bounded(),
            forall|i: int| 0 <= i < final(vt)@.len() ==> (#[trigger] final(vt)@[i]).bounded(),
    {
        match Self::parse_vertex(found, v) {
            Err(e) => {
                return Err(e);
            },
            Ok(_) => {},
        }
        match Self::parse_uvs(found, vt) {
            Err(e) => {
                return Err(e);
            },
            Ok(_) => {},
        }
        match Self::parse_normals(found, vn) {
            Err(e) => {
                return Err(e);
            },
            Ok(_) => {},
        }
        match Self::parse_space_vertices(found, vp) {
            Err(e) => {
                return Err(e);
            },
            Ok(_) => {},
        }
        match Self::parse_lines(found, l) {
            Err(e) => {
                return Err(e);
            },
            Ok(_) => {},
        }
        Self::parse_face_elements(found, f)
    }

    /// Reads a record `v x y z [w]`.
    fn parse_vertex(found: &Vec<Vec<u8>>, v: &mut Vec<Vertex>) -> (done: Result<(), LoadError>)
        requires
            forall|i: int| 0 <= i < old(v)@.len() ==> (#[trigger] old(v)@[i]).xyz.bounded(),
        ensures
            match read_vertex(old(v)@, word_views(*found)) {
                Ok(vertices) => done is Ok && final(v)@ == vertices,
                Err(e) => done == Err::<(), LoadError>(e) && final(v)@ == old(v)@,
            },
            forall|i: int| 0 <= i < final(v)@.len() ==> (#[trigger] final(v)@[i]).xyz.bounded(),
    {
        if !has_key(found, 118) {
            return Ok(());
        }
        match read_numbers(found, 3, 1) {
            Err(e) => Err(e),
            Ok(numbers) => {
                let w = if numbers.len() > 3 {
                    Some(numbers[3])
                } else {
                    None
                };
                let vertex = Vertex::new((numbers[0], numbers[1], numbers[2]), w);
                v.push(vertex);
                Ok(())
            },
        }
    }

    /// Reads a record `vt u [v] [w]`.
    fn parse_uvs(found: &Vec<Vec<u8>>, vt: &mut Vec<TextureUV>) -> (done: Result<(), LoadError>)
        requires
            forall|i: int| 0 <= i < old(vt)@.len() ==> (#[trigger] old(vt)@[i]).bounded(),
        ensures
            match read_uv(old(vt)@, word_views(*found)) {
                Ok(uvs) => done is Ok && final(vt)@ == uvs,
                Err(e) => done == Err::<(), LoadError>(e) && final(vt)@ == old(vt)@,
            },
            forall|i: int| 0 <= i < final(vt)@.len() ==> (#[trigger] final(vt)@[i]).bounded(),
    {
        if !has_keys(found, 118, 116) {
            return Ok(());
        }
        match read_numbers(found, 1, 2) {
            Err(e) => Err(e),
            Ok(numbers) => {
                let v = if numbers.len() > 1 {
                    Some(numbers[1])
                } else {
                    None
                };
                let w = if numbers.len() > 2 {
                    Some(numbers[2])
                } else {
                    None
                };
                let texture_uv = TextureUV::new(numbers[0], v, w);
                vt.push(texture_uv);
                Ok(())
            },
        }
    }

    /// Reads a record `vn x y z`.
    fn parse_normals(found: &Vec<Vec<u8>>, vn: &mut Vec<Point3>) -> (done: Result<(), LoadError>)
        ensures
            match read_normal(old(vn)@, word_views(*found)) {
                Ok(normals) => done is Ok && final(vn)@ == normals,
                Err(e) => done == Err::<(), LoadError>(e) && final(vn)@ == old(vn)@,
            },
    {
        if !has_keys(found, 118, 110) {
            return Ok(());
        }
        match read_numbers(found, 3, 0) {
            Err(e) => Err(e),
            Ok(numbers) => {
                let normal = Point3(numbers[0], numbers[1], numbers[2]);
                vn.push(normal);
                Ok(())
            },
        }
    }

    /// Reads a record `vp u [v] [w]`.
    fn parse_space_vertices(found: &Vec<Vec<u8>>, vp: &mut Vec<SpaceVertex>) -> (done: Result<
        (),
        LoadError,
    >)
        ensures
            match read_space_vertex(old(vp)@, word_views(*found)) {
                Ok(vertices) => done is Ok && final(vp)@ == vertices,
                Err(e) => done == Err::<(), LoadError>(e) && final(vp)@ == old(vp)@,
            },
    {
        if !has_keys(found, 118, 112) {
            return Ok(());
        }
        match read_numbers(found, 1, 2) {
            Err(e) => Err(e),
            Ok(numbers) => {
                let v = if numbers.len() > 1 {
                    Some(numbers[1])
                } else {
                    None
                };
                let w = if numbers.len() > 2 {
                    Some(numbers[2])
                } else {
                    None
                };
                let space_vertex = SpaceVertex::new(numbers[0], v, w);
                vp.push(space_vertex);
                Ok(())
            },
        }
    }

    /// Reads a record `f a/b/c a/b/c a/b/c`.
    fn parse_face_elements(found: &Vec<Vec<u8>>, f: &mut Vec<FaceElement>) -> (done: Result<
        (),
        LoadError,
    >)
        ensures
            match read_face(old(f)@, word_views(*found)) {
                Ok(faces) => done is Ok && final(f)@ == faces,
                Err(e) => done == Err::<(), LoadError>(e) && final(f)@ == old(f)@,
            },
    {
        if !has_key(found, 102) {
            return Ok(());
        }
        if found.len() < 4 {
            return Ok(());
        }
        let trip1 = match parse_single_triplet(&found[1]) {
            Err(e) => {
                return Err(e);
            },
            Ok(t) => t,
        };
        let trip2 = match parse_single_triplet(&found[2]) {
            Err(e) => {
                return Err(e);
            },
            Ok(t) => t,
        };
        let trip3 = match parse_single_triplet(&found[3]) {
            Err(e) => {
                return Err(e);
            },
            Ok(t) => t,
        };
        let vertex_triplet = (trip1.0, trip2.0, trip3.0);
        let texture_triplet = (trip1.1, trip2.1, trip3.1);
        let normal_triplet = (trip1.2, trip2.2, trip3.2);
        let face_element = FaceElement::new(vertex_triplet, texture_triplet, normal_triplet);
        f.push(face_element);
        Ok(())
    }

    /// Reads a record `l i j ...`.
    fn parse_lines(found: &Vec<Vec<u8>>, l: &mut Vec<Vec<usize>>) -> (done: Result<(), LoadError>)
        ensures
            match read_polyline(index_views(*old(l)), word_views(*found)) {
                Ok(lines) => done is Ok && index_views(*final(l)) == lines,
                Err(e) => done == Err::<(), LoadError>(e) && index_views(*final(l)) == index_views(
                    *old(l),
                ),
            },
    {
        if !has_key(found, 108) {
            return Ok(());
        }
        let mut lines: Vec<usize> = Vec::new();
        let mut i: usize = 1;
        while i < found.len()
            invariant
                1 <= i <= found@.len(),
                starts_with_key(word_views(*found), 108),
                *l == *old(l),
                indices_upto(word_views(*found), 1, i as int) == Ok::<Seq<usize>, LoadError>(
                    lines@,
                ),
            decreases found.len() - i,
        {
            match parse_index(&found[i]) {
                None => {
                    proof {
                        lemma_indices_error_stays(
                            word_views(*found),
                            1,
                            i as int + 1,
                            found@.len() as int,
                        );
                    }
                    return Err(LoadError::MalformedNumber);
                },
                Some(index) => {
                    lines.push(index);
                },
            }
            i += 1;
        }
        let ghost before = index_views(*l);
        l.push(lines);
        assert(index_views(*l) =~= before.push(lines@));
        Ok(())
    }

    /// The vertex that the index `u`, counted from one, names.
    pub fn get_vertex_at_index(&self, u: &usize) -> (vertex: Option<&Vertex>)
        ensures
            vertex is Some <==> lookup(self.vertices(), *u as int) is Some,
            vertex matches Some(v) ==> *v == lookup(self.vertices(), *u as int)->0
                && v.xyz.bounded(),
    {
        proof {
            use_type_invariant(self);
        }
        if *u >= 1 && *u <= self.v.len() {
            Some(&self.v[*u - 1])
        } else {
            None
        }
    }

    /// The texture coordinate that the index `u`, counted from one, names.
    pub fn get_texture_at_index(&self, u: &usize) -> (uv: Option<&TextureUV>)
        ensures
            uv is Some <==> lookup(self.textures(), *u as int) is Some,
            uv matches Some(t) ==> *t == lookup(self.textures(), *u as int)->0 && t.bounded(),
    {
        proof {
            use_type_invariant(self);
        }
        if *u >= 1 && *u <= self.vt.len() {
            Some(&self.vt[*u - 1])
        } else {
            None
        }
    }

    /// The vertex at the place `u`, counted from zero.
    pub fn get_vertex_impl(&self, u: usize) -> (vertex: Vertex)
        requires
            u < self.vertices().len(),
        ensures
            vertex == self.vertices()[u as int],
            vertex.xyz.bounded(),
    {
        proof {
            use_type_invariant(self);
        }
        self.v[u]
    }

    /// The face at the place `u`, counted from zero.
    pub fn get_face_impl(&self, u: usize) -> (face: FaceElement)
        requires
            u < self.faces().len(),
        ensures
            face == self.faces()[u as int],
    {
        self.f[u]
    }

    /// The vertex indices of every face that has all three of them.
    pub fn get_vert_triplets_from_face_elements(&self) -> (triplets: Vec<Vec3Unsigned>)
        ensures
            triplets@ == self.vertex_faces(),
    {
        let ghost all = self.f@.map_values(|face: FaceElement| face.vertex_triplet);
        let mut triplets: Vec<Vec3Unsigned> = Vec::new();
        let mut i: usize = 0;
        while i < self.f.len()
            invariant
                i <= self.f.len(),
                all == self.f@.map_values(|face: FaceElement| face.vertex_triplet),
                triplets@ == complete_triplets(all.take(i as int)),
            decreases self.f.len() - i,
        {
            let x = self.f[i].vertex_triplet;
            proof {
                assert(all.take(i + 1).drop_last() =~= all.take(i as int));
            }
            if x.0.is_some() && x.1.is_some() && x.2.is_some() {
                triplets.push(Vec3Unsigned::new(x.0.unwrap(), x.1.unwrap(), x.2.unwrap()));
            }
            i += 1;
        }
        assert(all.take(i as int) =~= all);
        triplets
    }

    /// The texture indices of every face that has all three of them.
    pub fn get_texture_triplets_from_elements(&self) -> (triplets: Vec<Vec3Unsigned>)
        ensures
            triplets@ == self.texture_faces(),
    {
        let ghost all = self.f@.map_values(|face: FaceElement| face.texture_triplet);
        let mut triplets: Vec<Vec3Unsigned> = Vec::new();
        let mut i: usize = 0;
        while i < self.f.len()
            invariant
                i <= self.f.len(),
                all == self.f@.map_values(|face: FaceElement| face.texture_triplet),
                triplets@ == complete_triplets(all.take(i as int)),
            decreases self.f.len() - i,
        {
            let x = self.f[i].texture_triplet;
            proof {
                assert(all.take(i + 1).drop_last() =~= all.take(i as int));
            }
            if x.0.is_some() && x.1.is_some() && x.2.is_some() {
                triplets.push(Vec3Unsigned::new(x.0.unwrap(), x.1.unwrap(), x.2.unwrap()));
            }
            i += 1;
        }
        assert(all.take(i as int) =~= all);
        triplets
    }

    /// The number of vertices.
    pub fn get_len_vertices(&self) -> (n: usize)
        ensures
            n == self.vertices().len(),
    {
        self.v.len()
    }

    /// The number of faces.
    pub fn get_n_faces(&self) -> (n: usize)
        ensures
            n == self.faces().len(),
    {
        let f = &self.f;
        f.len()
    }

    /// The number of vertices.
    pub fn get_n_vertices(&self) -> (n: usize)
        ensures
            n == self.vertices().len(),
    {
        let v = &self.v;
        v.len()
    }
}

} // verus!
