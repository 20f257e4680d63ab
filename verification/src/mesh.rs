//! The text format of a tetrahedral mesh.
//!
//! A mesh file is read line by line. A line that starts, after any white
//! space, with `v`, white space and three numbers separated by white space
//! gives a vertex. One that starts with `t`, white space and four vertex
//! indices separated by white space gives a tetrahedron. Whatever follows on
//! such a line, and every other line, is ignored.
//!
//! A number is an optional minus sign and decimal digits, with at most one
//! decimal point among them and a digit at the end: `12`, `-0.5`, `.25`. A
//! vertex index is a run of decimal digits. Where more text stands behind the
//! last number of a line, the number is the longest that can be read.
use vstd::prelude::*;
use crate::error::Error;

verus! {

/// A stretch of bytes: from `start` up to, not including, `end`.
#[derive(Clone, Copy, Debug, PartialEq, Eq)]
pub struct Span {
    pub start: usize,
    pub end: usize,
}

/// What a line says.
#[derive(Clone, Copy, Debug, PartialEq, Eq)]
pub enum MeshLine {
    /// A vertex, with the places of its three coordinates in the line.
    Vertex([Span; 3]),
    /// A tetrahedron, with the indices of its four corners.
    Tetrahedron([u16; 4]),
    /// Nothing.
    Other,
}

/// A mesh file as far as its text goes: where the coordinates of each vertex
/// stand in the file, and the corners of each tetrahedron.
#[derive(Clone, Debug, PartialEq, Eq)]
pub struct MeshText {
    pub vertices: Vec<[Span; 3]>,
    pub tetrahedra: Vec<[u16; 4]>,
}

/// Space, tab, line feed, vertical tab, form feed, carriage return.
pub open spec fn is_space(b: u8) -> bool {
    b == 32 || (9 <= b && b <= 13)
}

/// `0` to `9`.
pub open spec fn is_digit(b: u8) -> bool {
    48 <= b && b <= 57
}

/// The first place from `i` on where no white space stands.
pub open spec fn after_spaces(s: Seq<u8>, i: int) -> int
    decreases s.len() - i,
{
    if 0 <= i < s.len() && is_space(s[i]) {
        after_spaces(s, i + 1)
    } else {
        i
    }
}

/// The first place from `i` on where no digit stands.
pub open spec fn after_digits(s: Seq<u8>, i: int) -> int
    decreases s.len() - i,
{
    if 0 <= i < s.len() && is_digit(s[i]) {
        after_digits(s, i + 1)
    } else {
        i
    }
}

/// Where the longest number that starts at `i` ends, if one starts there.
pub open spec fn number_end(s: Seq<u8>, i: int) -> Option<int> {
    let p = if 0 <= i < s.len() && s[i] == 45 {
        i + 1
    } else {
        i
    };
    let q = after_digits(s, p);
    if 0 <= q && q + 1 < s.len() && s[q] == 46 && is_digit(s[q + 1]) {
        Some(after_digits(s, q + 1))
    } else if q > p {
        Some(q)
    } else {
        None
    }
}

/// The value of the digits from `i` up to `j`, read as a decimal number.
pub open spec fn digits_value(s: Seq<u8>, i: int, j: int) -> nat
    decreases j - i,
{
    if j <= i {
        0
    } else {
        digits_value(s, i, j - 1) * 10 + (s[j - 1] - 48) as nat
    }
}

/// Whether white space stands at `i`.
pub open spec fn space_at(s: Seq<u8>, i: int) -> bool {
    0 <= i < s.len() && is_space(s[i])
}

/// Where the keyword `key` of a line ends, if the line starts with it and
/// white space follows: the place of the first field.
pub open spec fn first_field(s: Seq<u8>, key: u8) -> Option<int> {
    let k = after_spaces(s, 0);
    if k < s.len() && s[k] == key && space_at(s, k + 1) {
        Some(after_spaces(s, k + 1))
    } else {
        None
    }
}

/// The places of the three coordinates of a vertex line, if `s` is one.
pub open spec fn vertex_fields(s: Seq<u8>) -> Option<(int, int, int, int, int, int)> {
    match first_field(s, 118) {
        None => None,
        Some(a) => match number_end(s, a) {
            Some(a_end) if space_at(s, a_end) => {
                let b = after_spaces(s, a_end);
                match number_end(s, b) {
                    Some(b_end) if space_at(s, b_end) => {
                        let c = after_spaces(s, b_end);
                        match number_end(s, c) {
                            Some(c_end) => Some((a, a_end, b, b_end, c, c_end)),
                            None => None,
                        }
                    },
                    _ => None,
                }
            },
            _ => None,
        },
    }
}

/// The places of the four indices of a tetrahedron line, if `s` is one.
pub open spec fn tetrahedron_fields(s: Seq<u8>) -> Option<
    (int, int, int, int, int, int, int, int),
> {
    match first_field(s, 116) {
        None => None,
        Some(a) => {
            let a_end = after_digits(s, a);
            let b = after_spaces(s, a_end);
            let b_end = after_digits(s, b);
            let c = after_spaces(s, b_end);
            let c_end = after_digits(s, c);
            let d = after_spaces(s, c_end);
            let d_end = after_digits(s, d);
            if a < a_end && space_at(s, a_end) && b < b_end && space_at(s, b_end) && c < c_end
                && space_at(s, c_end) && d < d_end {
                Some((a, a_end, b, b_end, c, c_end, d, d_end))
            } else {
                None
            }
        },
    }
}

/// What the line `s` says, or `None` where it is a tetrahedron line with an
/// index of 2^16 or more.
pub open spec fn line_meaning(s: Seq<u8>) -> Option<MeshLine> {
    match vertex_fields(s) {
        Some((a, a_end, b, b_end, c, c_end)) => Some(
            MeshLine::Vertex(
                [
                    Span { start: a as usize, end: a_end as usize },
                    Span { start: b as usize, end: b_end as usize },
                    Span { start: c as usize, end: c_end as usize },
                ],
            ),
        ),
        None => match tetrahedron_fields(s) {
            Some((a, a_end, b, b_end, c, c_end, d, d_end)) => {
                let i0 = digits_value(s, a, a_end);
                let i1 = digits_value(s, b, b_end);
                let i2 = digits_value(s, c, c_end);
                let i3 = digits_value(s, d, d_end);
                if i0 < 65536 && i1 < 65536 && i2 < 65536 && i3 < 65536 {
                    Some(MeshLine::Tetrahedron([i0 as u16, i1 as u16, i2 as u16, i3 as u16]))
                } else {
                    None
                }
            },
            None => Some(MeshLine::Other),
        },
    }
}

proof fn lemma_after_spaces(s: Seq<u8>, i: int)
    requires
        0 <= i <= s.len(),
    ensures
        i <= after_spaces(s, i) <= s.len(),
        !space_at(s, after_spaces(s, i)),
        forall|j: int| i <= j < after_spaces(s, i) ==> is_space(#[trigger] s[j]),
    decreases s.len() - i,
{
    if i < s.len() && is_space(s[i]) {
        lemma_after_spaces(s, i + 1);
    }
}

proof fn lemma_after_digits(s: Seq<u8>, i: int)
    requires
        0 <= i <= s.len(),
    ensures
        i <= after_digits(s, i) <= s.len(),
        after_digits(s, i) < s.len() ==> !is_digit(s[after_digits(s, i)]),
        forall|j: int| i <= j < after_digits(s, i) ==> is_digit(#[trigger] s[j]),
    decreases s.len() - i,
{
    if i < s.len() && is_digit(s[i]) {
        lemma_after_digits(s, i + 1);
    }
}

proof fn lemma_after_spaces_step(s: Seq<u8>, i: int, j: int)
    requires
        0 <= i <= j <= s.len(),
        forall|k: int| i <= k < j ==> is_space(#[trigger] s[k]),
    ensures
        after_spaces(s, i) == after_spaces(s, j),
    decreases j - i,
{
    if i < j {
        lemma_after_spaces_step(s, i + 1, j);
    }
}

proof fn lemma_after_digits_step(s: Seq<u8>, i: int, j: int)
    requires
        0 <= i <= j <= s.len(),
        forall|k: int| i <= k < j ==> is_digit(#[trigger] s[k]),
    ensures
        after_digits(s, i) == after_digits(s, j),
    decreases j - i,
{
    if i < j {
        lemma_after_digits_step(s, i + 1, j);
    }
}

/// Tells whether `b` is white space.
pub fn byte_is_space(b: u8) -> (r: bool)
    ensures
        r == is_space(b),
{
    b == 32 || (9 <= b && b <= 13)
}

/// Tells whether `b` is a digit.
pub fn byte_is_digit(b: u8) -> (r: bool)
    ensures
        r == is_digit(b),
{
    48 <= b && b <= 57
}

/// The first place from `i` on where no white space stands.
pub fn skip_spaces(s: &[u8], i: usize) -> (r: usize)
    requires
        i <= s@.len(),
    ensures
        r == after_spaces(s@, i as int),
        i <= r <= s@.len(),
{
    let mut j: usize = i;
    while j < s.len() && byte_is_space(s[j])
        invariant
            i <= j <= s@.len(),
            forall|k: int| i <= k < j ==> is_space(#[trigger] s@[k]),
        decreases s@.len() - j,
    {
        j += 1;
    }
    proof {
        lemma_after_spaces_step(s@, i as int, j as int);
    }
    j
}

/// The first place from `i` on where no digit stands.
pub fn skip_digits(s: &[u8], i: usize) -> (r: usize)
    requires
        i <= s@.len(),
    ensures
        r == after_digits(s@, i as int),
        i <= r <= s@.len(),
{
    let mut j: usize = i;
    while j < s.len() && byte_is_digit(s[j])
        invariant
            i <= j <= s@.len(),
            forall|k: int| i <= k < j ==> is_digit(#[trigger] s@[k]),
        decreases s@.len() - j,
    {
        j += 1;
    }
    proof {
        lemma_after_digits_step(s@, i as int, j as int);
    }
    j
}

/// Where the longest number that starts at `i` ends, if one starts there.
pub fn scan_number(s: &[u8], i: usize) -> (r: Option<usize>)
    requires
        i <= s@.len(),
    ensures
        match r {
            Some(end) => number_end(s@, i as int) == Some(end as int) && i < end <= s@.len(),
            None => number_end(s@, i as int) is None,
        },
{
    let p: usize = if i < s.len() && s[i] == 45 {
        i + 1
    } else {
        i
    };
    let q: usize = skip_digits(s, p);
    if q < s.len() && s[q] == 46 && q + 1 < s.len() && byte_is_digit(s[q + 1]) {
        Some(skip_digits(s, q + 1))
    } else if q > p {
        Some(q)
    } else {
        None
    }
}

proof fn lemma_digits_value_grows(s: Seq<u8>, i: int, j: int, k: int)
    requires
        0 <= i <= j <= k <= s.len(),
        forall|m: int| i <= m < k ==> is_digit(#[trigger] s[m]),
    ensures
        digits_value(s, i, j) <= digits_value(s, i, k),
    decreases k - j,
{
    if j < k {
        lemma_digits_value_grows(s, i, j, k - 1);
        assert(is_digit(s[k - 1]));
    }
}

/// The value of the digits from `i` up to `j`, where it is below 2^16.
pub fn read_index(s: &[u8], i: usize, j: usize) -> (r: Option<u16>)
    requires
        i <= j <= s@.len(),
        forall|m: int| i <= m < j ==> is_digit(#[trigger] s@[m]),
    ensures
        match r {
            Some(v) => digits_value(s@, i as int, j as int) == v,
            None => digits_value(s@, i as int, j as int) >= 65536,
        },
{
    let mut value: u32 = 0;
    let mut k: usize = i;
    while k < j
        invariant
            i <= k <= j <= s@.len(),
            forall|m: int| i <= m < j ==> is_digit(#[trigger] s@[m]),
            value == digits_value(s@, i as int, k as int),
            value < 65536,
        decreases j - k,
    {
        assert(is_digit(s@[k as int]));
        let next: u32 = value * 10 + (s[k] - 48) as u32;
        if next >= 65536 {
            proof {
                lemma_digits_value_grows(s@, i as int, k + 1, j as int);
            }
            return None;
        }
        value = next;
        k += 1;
    }
    Some(value as u16)
}

/// The place of the first field of a line that starts with `key`.
fn scan_key(s: &[u8], key: u8) -> (r: Option<usize>)
    ensures
        match r {
            Some(a) => first_field(s@, key) == Some(a as int) && a <= s@.len(),
            None => first_field(s@, key) is None,
        },
{
    let k: usize = skip_spaces(s, 0);
    if k < s.len() && s[k] == key && k + 1 < s.len() && byte_is_space(s[k + 1]) {
        Some(skip_spaces(s, k + 1))
    } else {
        None
    }
}

/// Where the number at `i` ends and the next field starts, if a number
/// stands at `i` and white space follows it.
fn scan_number_and_gap(s: &[u8], i: usize) -> (r: Option<(usize, usize)>)
    requires
        i <= s@.len(),
    ensures
        match r {
            Some((end, next)) => {
                &&& number_end(s@, i as int) == Some(end as int)
                &&& space_at(s@, end as int)
                &&& next == after_spaces(s@, end as int)
                &&& i < end < next <= s@.len()
            },
            None => match number_end(s@, i as int) {
                Some(end) => !space_at(s@, end),
                None => true,
            },
        },
{
    match scan_number(s, i) {
        Some(end) => {
            if end < s.len() && byte_is_space(s[end]) {
                let next = skip_spaces(s, end);
                proof {
                    lemma_after_spaces(s@, end as int);
                }
                Some((end, next))
            } else {
                None
            }
        },
        None => None,
    }
}

/// Whether the three stretches follow each other within the first `n` bytes,
/// and none is empty.
pub open spec fn spans_within(spans: [Span; 3], n: int) -> bool {
    &&& spans[0].start < spans[0].end
    &&& spans[0].end < spans[1].start
    &&& spans[1].start < spans[1].end
    &&& spans[1].end < spans[2].start
    &&& spans[2].start < spans[2].end
    &&& spans[2].end <= n
}

/// The places of the three coordinates of a vertex line.
fn scan_vertex(s: &[u8]) -> (r: Option<[Span; 3]>)
    ensures
        match r {
            Some(spans) => line_meaning(s@) == Some(MeshLine::Vertex(spans)) && spans_within(
                spans,
                s@.len() as int,
            ),
            None => vertex_fields(s@) is None,
        },
{
    let a = match scan_key(s, 118) {
        Some(a) => a,
        None => {
            return None;
        },
    };
    let (a_end, b) = match scan_number_and_gap(s, a) {
        Some(found) => found,
        None => {
            return None;
        },
    };
    let (b_end, c) = match scan_number_and_gap(s, b) {
        Some(found) => found,
        None => {
            return None;
        },
    };
    let c_end = match scan_number(s, c) {
        Some(end) => end,
        None => {
            return None;
        },
    };
    Some(
        [
            Span { start: a, end: a_end },
            Span { start: b, end: b_end },
            Span { start: c, end: c_end },
        ],
    )
}

/// What the line `line` says, or `None` where it is a tetrahedron line with
/// an index of 2^16 or more.
pub fn parse_line(line: &[u8]) -> (r: Option<MeshLine>)
    ensures
        r == line_meaning(line@),
        r matches Some(MeshLine::Vertex(spans)) ==> spans_within(spans, line@.len() as int),
{
    if let Some(spans) = scan_vertex(line) {
        return Some(MeshLine::Vertex(spans));
    }
    let a = match scan_key(line, 116) {
        Some(a) => a,
        None => {
            return Some(MeshLine::Other);
        },
    };
    let a_end = skip_digits(line, a);
    let b = skip_spaces(line, a_end);
    let b_end = skip_digits(line, b);
    let c = skip_spaces(line, b_end);
    let c_end = skip_digits(line, c);
    let d = skip_spaces(line, c_end);
    let d_end = skip_digits(line, d);
    if !(a < a_end && a_end < line.len() && byte_is_space(line[a_end]) && b < b_end && b_end
        < line.len() && byte_is_space(line[b_end]) && c < c_end && c_end < line.len()
        && byte_is_space(line[c_end]) && d < d_end) {
        return Some(MeshLine::Other);
    }
    proof {
        lemma_after_digits(line@, a as int);
        lemma_after_digits(line@, b as int);
        lemma_after_digits(line@, c as int);
        lemma_after_digits(line@, d as int);
    }
    let i0 = read_index(line, a, a_end);
    let i1 = read_index(line, b, b_end);
    let i2 = read_index(line, c, c_end);
    let i3 = read_index(line, d, d_end);
    match (i0, i1, i2, i3) {
        (Some(i0), Some(i1), Some(i2), Some(i3)) => Some(MeshLine::Tetrahedron([i0, i1, i2, i3])),
        _ => None,
    }
}

/// The first place from `i` on where a line feed stands, or the end of `s`.
pub open spec fn line_end(s: Seq<u8>, i: int) -> int
    decreases s.len() - i,
{
    if 0 <= i < s.len() && s[i] != 10 {
        line_end(s, i + 1)
    } else {
        i
    }
}

/// Where the line after the one that starts at `i` starts, or the end of `s`.
pub open spec fn next_line(s: Seq<u8>, i: int) -> int {
    if line_end(s, i) < s.len() {
        line_end(s, i) + 1
    } else {
        s.len() as int
    }
}

/// The three stretches, moved `by` bytes to the right.
pub open spec fn moved(spans: [Span; 3], by: int) -> [Span; 3] {
    [
        Span { start: (spans[0].start + by) as usize, end: (spans[0].end + by) as usize },
        Span { start: (spans[1].start + by) as usize, end: (spans[1].end + by) as usize },
        Span { start: (spans[2].start + by) as usize, end: (spans[2].end + by) as usize },
    ]
}

/// A line ends at or behind the place where it starts, at a line feed or at
/// the end of the text, and holds no line feed.
pub proof fn lemma_line_end(s: Seq<u8>, i: int)
    requires
        0 <= i <= s.len(),
    ensures
        i <= line_end(s, i) <= s.len(),
        line_end(s, i) < s.len() ==> s[line_end(s, i)] == 10,
        forall|j: int| i <= j < line_end(s, i) ==> #[trigger] s[j] != 10,
    decreases s.len() - i,
{
    if i < s.len() && s[i] != 10 {
        lemma_line_end(s, i + 1);
    }
}

proof fn lemma_line_end_step(s: Seq<u8>, i: int, j: int)
    requires
        0 <= i <= j <= s.len(),
        forall|k: int| i <= k < j ==> #[trigger] s[k] != 10,
    ensures
        line_end(s, i) == line_end(s, j),
    decreases j - i,
{
    if i < j {
        lemma_line_end_step(s, i + 1, j);
    }
}

/// What the text from the line that starts at `i` on adds to the vertices
/// and tetrahedra that the lines before it gave, where that line is the
/// line number `line`.
///
/// Fails at the first tetrahedron line with an index of 2^16 or more, with
/// the number of that line.
pub open spec fn mesh_from(
    s: Seq<u8>,
    i: int,
    line: nat,
    vertices: Seq<[Span; 3]>,
    tetrahedra: Seq<[u16; 4]>,
) -> Result<(Seq<[Span; 3]>, Seq<[u16; 4]>), Error>
    decreases s.len() - i,
{
    if i < 0 || i >= s.len() {
        Ok((vertices, tetrahedra))
    } else {
        proof {
            lemma_line_end(s, i);
        }
        match line_meaning(s.subrange(i, line_end(s, i))) {
            None => Err(Error::Parse { line: line as usize }),
            Some(MeshLine::Vertex(spans)) => mesh_from(
                s,
                next_line(s, i),
                line + 1,
                vertices.push(moved(spans, i)),
                tetrahedra,
            ),
            Some(MeshLine::Tetrahedron(t)) => mesh_from(
                s,
                next_line(s, i),
                line + 1,
                vertices,
                tetrahedra.push(t),
            ),
            Some(MeshLine::Other) => mesh_from(s, next_line(s, i), line + 1, vertices, tetrahedra),
        }
    }
}

/// What the text `s` says: its vertices and its tetrahedra, each in the
/// order of their lines.
pub open spec fn mesh_meaning(s: Seq<u8>) -> Result<(Seq<[Span; 3]>, Seq<[u16; 4]>), Error> {
    mesh_from(s, 0, 0, Seq::empty(), Seq::empty())
}

/// The first place from `i` on where a line feed stands, or the end of `s`.
pub fn find_line_end(s: &[u8], i: usize) -> (r: usize)
    requires
        i <= s@.len(),
    ensures
        r == line_end(s@, i as int),
        i <= r <= s@.len(),
{
    let mut j: usize = i;
    while j < s.len() && s[j] != 10
        invariant
            i <= j <= s@.len(),
            forall|k: int| i <= k < j ==> #[trigger] s@[k] != 10,
        decreases s@.len() - j,
    {
        j += 1;
    }
    proof {
        lemma_line_end_step(s@, i as int, j as int);
    }
    j
}

/// Reads a mesh file.
pub fn parse_mesh(bytes: &[u8]) -> (r: Result<MeshText, Error>)
    ensures
        match r {
            Ok(text) => {
                &&& mesh_meaning(bytes@) == Ok::<_, Error>((text.vertices@, text.tetrahedra@))
                &&& forall|v: int|
                    0 <= v < text.vertices@.len() ==> spans_within(
                        #[trigger] text.vertices@[v],
                        bytes@.len() as int,
                    )
            },
            Err(e) => mesh_meaning(bytes@) == Err::<(Seq<[Span; 3]>, Seq<[u16; 4]>), _>(e),
        },
{
    let mut vertices: Vec<[Span; 3]> = Vec::new();
    let mut tetrahedra: Vec<[u16; 4]> = Vec::new();
    let n: usize = bytes.len();
    let mut i: usize = 0;
    let mut line_no: usize = 0;
    while i < n
        invariant
            i <= n,
            n == bytes@.len(),
            line_no <= i,
            mesh_meaning(bytes@) == mesh_from(
                bytes@,
                i as int,
                line_no as nat,
                vertices@,
                tetrahedra@,
            ),
            forall|v: int|
                0 <= v < vertices@.len() ==> spans_within(#[trigger] vertices@[v], n as int),
        decreases n - i,
    {
        let end: usize = find_line_end(bytes, i);
        let line = vstd::slice::slice_subrange(bytes, i, end);
        match parse_line(line) {
            None => {
                return Err(Error::Parse { line: line_no });
            },
            Some(MeshLine::Vertex(spans)) => {
                let there: [Span; 3] = [
                    Span { start: spans[0].start + i, end: spans[0].end + i },
                    Span { start: spans[1].start + i, end: spans[1].end + i },
                    Span { start: spans[2].start + i, end: spans[2].end + i },
                ];
                assert(there =~= moved(spans, i as int));
                vertices.push(there);
            },
            Some(MeshLine::Tetrahedron(t)) => {
                tetrahedra.push(t);
            },
            Some(MeshLine::Other) => {},
        }
        i = if end < n {
            end + 1
        } else {
            n
        };
        line_no += 1;
    }
    Ok(MeshText { vertices, tetrahedra })
}

} // verus!
