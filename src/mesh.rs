//! The per-frame geometry buffer: a vertex list plus a 16-bit index list that
//! every shape request appends triangles to.
use vstd::prelude::*;

verus! {

/// Indices are 16 bits wide, so a frame can address at most this many vertices.
pub const MAX_VERTICES: usize = 65536;

/// What a frame's buffer holds, as sequences.
pub struct MeshView<V> {
    pub vertices: Seq<V>,
    pub indices: Seq<u16>,
}

/// The empty buffer that every frame starts from.
pub open spec fn empty_mesh<V>() -> MeshView<V> {
    MeshView { vertices: Seq::empty(), indices: Seq::empty() }
}

/// The buffer invariant: the vertex count stays addressable by 16-bit indices and
/// every index names a vertex that is already in the buffer.
pub open spec fn well_formed<V>(m: MeshView<V>) -> bool {
    &&& m.vertices.len() <= MAX_VERTICES
    &&& forall|i: int| 0 <= i < m.indices.len() ==> (#[trigger] m.indices[i] as int) < m.vertices.len()
}

/// Whether `n` more vertices can be addressed.
pub open spec fn has_room<V>(m: MeshView<V>, n: int) -> bool {
    m.vertices.len() + n <= MAX_VERTICES
}

/// A triangle list pattern, relative to the first vertex of the shape, moved to `base`.
pub open spec fn shifted(base: int, pattern: Seq<int>) -> Seq<u16> {
    pattern.map_values(|p: int| (base + p) as u16)
}

/// The buffer after appending the shape `vs` whose triangles follow `pattern`.
pub open spec fn appended<V>(m: MeshView<V>, vs: Seq<V>, pattern: Seq<int>) -> MeshView<V> {
    MeshView {
        vertices: m.vertices + vs,
        indices: m.indices + shifted(m.vertices.len() as int, pattern),
    }
}

/// One triangle over three vertices.
pub open spec fn triangle_pattern() -> Seq<int> {
    seq![0, 1, 2]
}

/// Two triangles sharing the diagonal from vertex 0 to vertex 3, the two given
/// corners; for a top-left/bottom-right pair both wind counter-clockwise.
pub open spec fn rect_pattern() -> Seq<int> {
    seq![0, 1, 3, 0, 3, 2]
}

/// A fan over `n` vertices: triangle `(0, i + 1, i + 2)` for each `i < n - 2`.
pub open spec fn fan_pattern(n: nat) -> Seq<int> {
    let len: int = if n >= 3 { 3 * (n - 2) } else { 0 };
    Seq::new(len as nat, |k: int| if k % 3 == 0 { 0 } else { k / 3 + k % 3 })
}

/// Eight triangles joining four outer corners (0..4) to four inner corners (4..8).
pub open spec fn frame_pattern() -> Seq<int> {
    seq![0, 1, 4, 1, 2, 5, 2, 3, 6, 3, 0, 7, 4, 1, 5, 5, 2, 6, 6, 3, 7, 7, 0, 4]
}

/// Every entry of `pattern` names one of the shape's `n` vertices.
pub open spec fn pattern_within(pattern: Seq<int>, n: int) -> bool {
    forall|i: int| 0 <= i < pattern.len() ==> 0 <= #[trigger] pattern[i] < n
}

/// Appending a shape whose pattern stays within its own vertices keeps the buffer
/// well formed.
pub proof fn lemma_appended_well_formed<V>(m: MeshView<V>, vs: Seq<V>, pattern: Seq<int>)
    requires
        well_formed(m),
        has_room(m, vs.len() as int),
        pattern_within(pattern, vs.len() as int),
    ensures
        well_formed(appended(m, vs, pattern)),
{
    let r = appended(m, vs, pattern);
    assert forall|i: int| 0 <= i < r.indices.len() implies (#[trigger] r.indices[i] as int)
        < r.vertices.len() by {
        if i >= m.indices.len() {
            let p = pattern[i - m.indices.len()];
            assert(0 <= p < vs.len());
        }
    }
}

/// A rectangle adds exactly four vertices and six indices, each new index names one
/// of the four new vertices, and both triangles hold the two given corners (the first
/// and last vertex), so they share the diagonal between them.
pub proof fn lemma_rect_stays_in_shape<V>(m: MeshView<V>, corners: [V; 4])
    requires
        has_room(m, 4),
    ensures
        ({
            let r = appended(m, corners@, rect_pattern());
            &&& r.vertices.len() == m.vertices.len() + 4
            &&& r.indices.len() == m.indices.len() + 6
            &&& forall|i: int|
                m.indices.len() <= i < r.indices.len() ==> m.vertices.len() <= #[trigger] (
                r.indices[i] as int) < m.vertices.len() + 4
            &&& r.indices.subrange(m.indices.len() as int, m.indices.len() + 3int).contains(
                m.vertices.len() as u16,
            )
            &&& r.indices.subrange(m.indices.len() as int, m.indices.len() + 3int).contains(
                (m.vertices.len() + 3) as u16,
            )
            &&& r.indices.subrange(m.indices.len() + 3int, m.indices.len() + 6int).contains(
                m.vertices.len() as u16,
            )
            &&& r.indices.subrange(m.indices.len() + 3int, m.indices.len() + 6int).contains(
                (m.vertices.len() + 3) as u16,
            )
        }),
{
    let n = m.indices.len() as int;
    let first = appended(m, corners@, rect_pattern()).indices.subrange(n, n + 3);
    let second = appended(m, corners@, rect_pattern()).indices.subrange(n + 3, n + 6);
    assert(first[0] == m.vertices.len() as u16 && first[2] == (m.vertices.len() + 3) as u16);
    assert(second[0] == m.vertices.len() as u16 && second[1] == (m.vertices.len() + 3) as u16);
    let r = appended(m, corners@, rect_pattern());
    assert forall|i: int| m.indices.len() <= i < r.indices.len() implies m.vertices.len()
        <= #[trigger] (r.indices[i] as int) < m.vertices.len() + 4 by {
        assert(0 <= rect_pattern()[i - m.indices.len()] < 4);
    }
}

/// A polygon of `n` points adds exactly `n` vertices, and `3 * (n - 2)` indices when
/// `n >= 3`, none otherwise.
pub proof fn lemma_poly_counts<V>(m: MeshView<V>, points: Seq<V>)
    ensures
        appended(m, points, fan_pattern(points.len())).vertices.len() == m.vertices.len()
            + points.len(),
        appended(m, points, fan_pattern(points.len())).indices.len() == m.indices.len() + (if points.len()
            >= 3 {
            3 * (points.len() - 2)
        } else {
            0
        }),
{
}

/// A frame that was taken for submission starts the next one from nothing: a
/// triangle drawn next holds exactly its own three vertices and the indices `0, 1, 2`.
pub proof fn lemma_frame_starts_empty<V>(points: [V; 3])
    ensures
        appended(empty_mesh::<V>(), points@, triangle_pattern()).vertices == points@,
        appended(empty_mesh::<V>(), points@, triangle_pattern()).vertices.len() == 3,
        appended(empty_mesh::<V>(), points@, triangle_pattern()).indices == seq![0u16, 1u16, 2u16],
{
    let r = appended(empty_mesh::<V>(), points@, triangle_pattern());
    assert(r.vertices =~= points@);
    assert(r.indices =~= seq![0u16, 1u16, 2u16]);
}

/// Triangles and vertices of one frame, appended to by shape requests and emptied
/// when the frame is taken for submission.
pub struct GeometryBuffer<V> {
    vertices: Vec<V>,
    indices: Vec<u16>,
}

/// Why a shape was skipped.
#[derive(Debug, Clone, Copy, PartialEq, Eq, Structural)]
pub enum DrawError {
    /// The shape's vertices would not be addressable by 16-bit indices.
    IndexSpaceFull,
}

impl<V> View for GeometryBuffer<V> {
    type V = MeshView<V>;

    closed spec fn view(&self) -> MeshView<V> {
        MeshView { vertices: self.vertices@, indices: self.indices@ }
    }
}

impl<V: Copy> GeometryBuffer<V> {
    /// An empty buffer.
    pub fn new() -> (r: Self)
        ensures
            r@ == empty_mesh::<V>(),
            well_formed(r@),
    {
        let r = GeometryBuffer { vertices: Vec::new(), indices: Vec::new() };
        assert(r@.vertices =~= Seq::<V>::empty());
        assert(r@.indices =~= Seq::<u16>::empty());
        r
    }

    /// The vertices appended so far in this frame.
    pub fn vertices(&self) -> (r: &[V])
        ensures
            r@ == self@.vertices,
    {
        self.vertices.as_slice()
    }

    /// The indices appended so far in this frame.
    pub fn indices(&self) -> (r: &[u16])
        ensures
            r@ == self@.indices,
    {
        self.indices.as_slice()
    }

    /// Hands over the frame's vertices and indices and leaves the buffer empty, so
    /// that the next frame starts from nothing.
    pub fn take_frame(&mut self) -> (r: (Vec<V>, Vec<u16>))
        ensures
            r.0@ == old(self)@.vertices,
            r.1@ == old(self)@.indices,
            final(self)@ == empty_mesh::<V>(),
    {
        let mut vertices: Vec<V> = Vec::new();
        let mut indices: Vec<u16> = Vec::new();
        std::mem::swap(&mut vertices, &mut self.vertices);
        std::mem::swap(&mut indices, &mut self.indices);
        assert(self@.vertices =~= Seq::<V>::empty());
        assert(self@.indices =~= Seq::<u16>::empty());
        (vertices, indices)
    }

    /// Appends one triangle: its three vertices, then their indices in order.
    pub fn draw_triangle(&mut self, points: [V; 3]) -> (r: Result<(), DrawError>)
        requires
            well_formed(old(self)@),
        ensures
            well_formed(final(self)@),
            has_room(old(self)@, 3) ==> r is Ok && final(self)@ == appended(
                old(self)@,
                points@,
                triangle_pattern(),
            ),
            !has_room(old(self)@, 3) ==> r == Err::<(), DrawError>(DrawError::IndexSpaceFull)
                && final(self)@ == old(self)@,
    {
        let offset = self.vertices.len();
        if offset > MAX_VERTICES - 3 {
            return Err(DrawError::IndexSpaceFull);
        }
        let ghost m = self@;
        self.vertices.push(points[0]);
        self.vertices.push(points[1]);
        self.vertices.push(points[2]);
        self.indices.push(offset as u16);
        self.indices.push((offset + 1) as u16);
        self.indices.push((offset + 2) as u16);
        proof {
            let pat = triangle_pattern();
            assert(self@.vertices =~= m.vertices + points@);
            assert(self@.indices =~= m.indices + shifted(offset as int, pat));
            assert(pattern_within(pat, 3));
            lemma_appended_well_formed(m, points@, pat);
        }
        Ok(())
    }

    /// Appends an axis-aligned rectangle given by its corners in the order
    /// `[p0, (p0.x, p1.y), (p1.x, p0.y), p1]`, where `p0` and `p1` are opposite corners:
    /// two triangles, `(p0, (p0.x, p1.y), p1)` and `(p0, p1, (p1.x, p0.y))`, that share
    /// the diagonal from `p0` to `p1`.
    pub fn draw_rect(&mut self, corners: [V; 4]) -> (r: Result<(), DrawError>)
        requires
            well_formed(old(self)@),
        ensures
            well_formed(final(self)@),
            has_room(old(self)@, 4) ==> r is Ok && final(self)@ == appended(
                old(self)@,
                corners@,
                rect_pattern(),
            ),
            !has_room(old(self)@, 4) ==> r == Err::<(), DrawError>(DrawError::IndexSpaceFull)
                && final(self)@ == old(self)@,
    {
        let offset = self.vertices.len();
        if offset > MAX_VERTICES - 4 {
            return Err(DrawError::IndexSpaceFull);
        }
        let ghost m = self@;
        self.vertices.push(corners[0]);
        self.vertices.push(corners[1]);
        self.vertices.push(corners[2]);
        self.vertices.push(corners[3]);
        self.indices.push(offset as u16);
        self.indices.push((offset + 1) as u16);
        self.indices.push((offset + 3) as u16);
        self.indices.push(offset as u16);
        self.indices.push((offset + 3) as u16);
        self.indices.push((offset + 2) as u16);
        proof {
            let pat = rect_pattern();
            assert(self@.vertices =~= m.vertices + corners@);
            assert(self@.indices =~= m.indices + shifted(offset as int, pat));
            assert(pattern_within(pat, 4));
            lemma_appended_well_formed(m, corners@, pat);
        }
        Ok(())
    }

    /// Appends a convex polygon as a fan from its first point: the `n` points as
    /// vertices and, for `n >= 3`, the `n - 2` triangles `(0, i + 1, i + 2)`. With fewer
    /// than three points the vertices are added and no triangle is.
    pub fn draw_poly(&mut self, points: Vec<V>) -> (r: Result<(), DrawError>)
        requires
            well_formed(old(self)@),
        ensures
            well_formed(final(self)@),
            has_room(old(self)@, points@.len() as int) ==> r is Ok && final(self)@ == appended(
                old(self)@,
                points@,
                fan_pattern(points@.len()),
            ),
            !has_room(old(self)@, points@.len() as int) ==> r == Err::<(), DrawError>(
                DrawError::IndexSpaceFull,
            ) && final(self)@ == old(self)@,
    {
        let offset = self.vertices.len();
        let n = points.len();
        if n > MAX_VERTICES - offset {
            return Err(DrawError::IndexSpaceFull);
        }
        let ghost m = self@;
        let ghost pat = fan_pattern(n as nat);
        if n >= 3 {
            let mut i: usize = 0;
            while i < n - 2
                invariant
                    n >= 3,
                    offset + n <= MAX_VERTICES,
                    i <= n - 2,
                    offset == m.vertices.len(),
                    self@.vertices == m.vertices,
                    pat == fan_pattern(n as nat),
                    self@.indices == m.indices + shifted(offset as int, pat.take(3 * i)),
                decreases n - 2 - i,
            {
                proof {
                    assert forall|j: int| 0 <= j < 3 implies #[trigger] pat[3 * i + j] == (if j
                        == 0 {
                        0
                    } else {
                        i + j
                    }) by {
                        vstd::arithmetic::div_mod::lemma_fundamental_div_mod_converse(
                            3 * i + j,
                            3,
                            i as int,
                            j,
                        );
                    }
                }
                self.indices.push(offset as u16);
                self.indices.push((offset + i + 1) as u16);
                self.indices.push((offset + i + 2) as u16);
                proof {
                    assert(pat.take(3 * (i + 1)) =~= pat.take(3 * i).push(pat[3 * i]).push(
                        pat[3 * i + 1],
                    ).push(pat[3 * i + 2]));
                    assert(self@.indices =~= m.indices + shifted(
                        offset as int,
                        pat.take(3 * (i + 1)),
                    ));
                }
                i = i + 1;
            }
            assert(pat.take(3 * i) =~= pat);
        } else {
            assert(self@.indices =~= m.indices + shifted(offset as int, pat));
        }
        let mut k: usize = 0;
        while k < n
            invariant
                k <= n,
                n == points@.len(),
                self@.indices == m.indices + shifted(offset as int, pat),
                self@.vertices == m.vertices + points@.take(k as int),
            decreases n - k,
        {
            self.vertices.push(points[k]);
            proof {
                assert(points@.take(k + 1) =~= points@.take(k as int).push(points@[k as int]));
            }
            k = k + 1;
        }
        proof {
            assert(points@.take(n as int) =~= points@);
            assert forall|j: int| 0 <= j < pat.len() implies 0 <= #[trigger] pat[j] < n by {
                let q = j / 3;
                let rr = j % 3;
                vstd::arithmetic::div_mod::lemma_fundamental_div_mod(j, 3);
                assert(0 <= q <= n - 3);
            }
            lemma_appended_well_formed(m, points@, pat);
        }
        Ok(())
    }

    /// Appends a picture-frame outline: the four outer corners, in order round the
    /// box, then the four inner corners, each inset toward the interior, and the
    /// eight triangles of `frame_pattern` that fill the band between them.
    pub fn draw_box(&mut self, outer: [V; 4], inner: [V; 4]) -> (r: Result<(), DrawError>)
        requires
            well_formed(old(self)@),
        ensures
            well_formed(final(self)@),
            has_room(old(self)@, 8) ==> r is Ok && final(self)@ == appended(
                old(self)@,
                outer@ + inner@,
                frame_pattern(),
            ),
            !has_room(old(self)@, 8) ==> r == Err::<(), DrawError>(DrawError::IndexSpaceFull)
                && final(self)@ == old(self)@,
    {
        let offset = self.vertices.len();
        if offset > MAX_VERTICES - 8 {
            return Err(DrawError::IndexSpaceFull);
        }
        let ghost m = self@;
        let mut c: usize = 0;
        while c < 4
            invariant
                c <= 4,
                self@.indices == m.indices,
                self@.vertices == m.vertices + outer@.take(c as int),
            decreases 4 - c,
        {
            self.vertices.push(outer[c]);
            proof {
                assert(outer@.take(c + 1) =~= outer@.take(c as int).push(outer@[c as int]));
            }
            c = c + 1;
        }
        let mut c: usize = 0;
        while c < 4
            invariant
                c <= 4,
                self@.indices == m.indices,
                self@.vertices == m.vertices + outer@.take(4) + inner@.take(c as int),
            decreases 4 - c,
        {
            self.vertices.push(inner[c]);
            proof {
                assert(inner@.take(c + 1) =~= inner@.take(c as int).push(inner@[c as int]));
            }
            c = c + 1;
        }
        let pattern: Vec<u16> = vec![
            0, 1, 4, 1, 2, 5, 2, 3, 6, 3, 0, 7, 4, 1, 5, 5, 2, 6, 6, 3, 7, 7, 0, 4,
        ];
        let ghost pat = frame_pattern();
        assert(pattern@.len() == 24);
        assert(forall|j: int| 0 <= j < 24 ==> #[trigger] pattern@[j] as int == pat[j]);
        let mut j: usize = 0;
        while j < 24
            invariant
                j <= 24,
                offset + 8 <= MAX_VERTICES,
                pattern@.len() == 24,
                pat == frame_pattern(),
                forall|t: int| 0 <= t < 24 ==> #[trigger] pattern@[t] as int == pat[t],
                forall|t: int| 0 <= t < 24 ==> 0 <= #[trigger] pat[t] < 8,
                self@.vertices == m.vertices + outer@.take(4) + inner@.take(4),
                self@.indices == m.indices + shifted(offset as int, pat.take(j as int)),
            decreases 24 - j,
        {
            self.indices.push(offset as u16 + pattern[j]);
            proof {
                assert(pat.take(j + 1) =~= pat.take(j as int).push(pat[j as int]));
                assert(self@.indices =~= m.indices + shifted(offset as int, pat.take(j + 1)));
            }
            j = j + 1;
        }
        proof {
            assert(outer@.take(4) =~= outer@);
            assert(inner@.take(4) =~= inner@);
            assert(pat.take(24) =~= pat);
            assert(self@.vertices =~= m.vertices + (outer@ + inner@));
            lemma_appended_well_formed(m, outer@ + inner@, pat);
        }
        Ok(())
    }
}

} // verus!
