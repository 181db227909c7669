//! Topology of the unit sphere mesh shared by all scene objects: which
//! latitude/longitude grid points each triangle joins.
use vstd::prelude::*;
use vstd::arithmetic::div_mod::lemma_fundamental_div_mod;
use vstd::arithmetic::div_mod::lemma_fundamental_div_mod_converse;
use vstd::relations::injective_on;
use vstd::set_lib::lemma_int_range;
use vstd::set_lib::lemma_map_size;
use vstd::set_lib::set_int_range;

verus! {

/// A vertex of the sphere mesh.
#[derive(Clone, Copy, Debug, PartialEq, Eq)]
pub enum MeshVertex {
    /// The point at the top of the sphere.
    NorthPole,
    /// The point at the bottom of the sphere.
    SouthPole,
    /// The grid point on latitude ring `latitude` (counted from the north
    /// pole) and meridian `longitude`.
    Ring { latitude: usize, longitude: usize },
}

/// The three vertices of a mesh triangle.
pub type MeshTriangle = (MeshVertex, MeshVertex, MeshVertex);

/// Why a sphere mesh cannot be generated.
#[derive(Clone, Copy, Debug, PartialEq, Eq)]
pub enum SphereError {
    /// Fewer than 2 latitude segments.
    TooFewLatitudeSegments,
    /// Fewer than 3 longitude segments.
    TooFewLongitudeSegments,
    /// The triangle count does not fit in `usize`.
    TooManySegments,
}

/// Number of triangles in the strip between two neighbouring meridians.
pub open spec fn strip_len(latitude_segments: int) -> int {
    2 * (latitude_segments - 1)
}

/// Grid point on ring `latitude` and meridian `longitude`.
pub open spec fn ring(latitude: int, longitude: int) -> MeshVertex {
    MeshVertex::Ring { latitude: latitude as usize, longitude: longitude as usize }
}

/// The `index`-th triangle of the mesh: meridian strip after meridian strip,
/// each strip running from the north pole cap through pairs of quad halves
/// down to the south pole cap.
pub open spec fn sphere_triangle(index: int, latitude_segments: int, longitude_segments: int) -> MeshTriangle {
    let strip = strip_len(latitude_segments);
    let longitude = index / strip;
    let position = index % strip;
    let next = (longitude + 1) % longitude_segments;
    if position == 0 {
        (MeshVertex::NorthPole, ring(1, longitude), ring(1, next))
    } else if position == strip - 1 {
        (ring(latitude_segments - 1, longitude), MeshVertex::SouthPole, ring(latitude_segments - 1, next))
    } else {
        let latitude = 1 + (position - 1) / 2;
        if (position - 1) % 2 == 0 {
            (ring(latitude, longitude), ring(latitude + 1, longitude), ring(latitude, next))
        } else {
            (ring(latitude, next), ring(latitude + 1, longitude), ring(latitude + 1, next))
        }
    }
}

/// Whether `vertex` is a pole or a grid point strictly between the poles.
pub open spec fn vertex_on_grid(vertex: MeshVertex, latitude_segments: int, longitude_segments: int) -> bool {
    match vertex {
        MeshVertex::Ring { latitude, longitude } => 1 <= latitude < latitude_segments && longitude
            < longitude_segments,
        _ => true,
    }
}

/// Every triangle of a mesh joins grid points that exist: rings strictly
/// between the poles and meridians below the meridian count.
pub proof fn lemma_sphere_triangle_on_grid(index: int, latitude_segments: int, longitude_segments: int)
    requires
        2 <= latitude_segments <= usize::MAX,
        3 <= longitude_segments <= usize::MAX,
        0 <= index < longitude_segments * strip_len(latitude_segments),
    ensures
        vertex_on_grid(sphere_triangle(index, latitude_segments, longitude_segments).0, latitude_segments, longitude_segments),
        vertex_on_grid(sphere_triangle(index, latitude_segments, longitude_segments).1, latitude_segments, longitude_segments),
        vertex_on_grid(sphere_triangle(index, latitude_segments, longitude_segments).2, latitude_segments, longitude_segments),
{
    let strip = strip_len(latitude_segments);
    lemma_fundamental_div_mod(index, strip);
    let longitude = index / strip;
    assert(longitude < longitude_segments) by (nonlinear_arith)
        requires
            0 <= index < longitude_segments * strip,
            index == strip * longitude + index % strip,
            0 <= index % strip,
            strip > 0,
    ;
    assert(0 <= longitude) by (nonlinear_arith)
        requires
            0 <= index,
            strip > 0,
            longitude == index / strip,
    ;
}

/// The edge numbered `edge` of `triangle`: 0 runs from its first vertex to
/// its second, 1 from its second to its third, 2 from its third back to its
/// first.
pub open spec fn triangle_edge(triangle: MeshTriangle, edge: int) -> (MeshVertex, MeshVertex) {
    if edge == 0 {
        (triangle.0, triangle.1)
    } else if edge == 1 {
        (triangle.1, triangle.2)
    } else {
        (triangle.2, triangle.0)
    }
}

/// Whether `vertex` is a corner of `triangle`.
pub open spec fn triangle_has_vertex(triangle: MeshTriangle, vertex: MeshVertex) -> bool {
    triangle.0 == vertex || triangle.1 == vertex || triangle.2 == vertex
}

/// The meridian before `longitude`, wrapping round from 0 to the last one.
pub open spec fn previous_meridian(longitude: int, longitude_segments: int) -> int {
    if longitude == 0 {
        longitude_segments - 1
    } else {
        longitude - 1
    }
}

/// The indices of the triangles of a mesh that have `pole` as a corner.
pub open spec fn pole_triangles(pole: MeshVertex, latitude_segments: int, longitude_segments: int) -> Set<int> {
    Set::new(
        |index: int|
            0 <= index < longitude_segments * strip_len(latitude_segments) && triangle_has_vertex(
                sphere_triangle(index, latitude_segments, longitude_segments),
                pole,
            ),
    )
}

/// Where the triangle at `position` of strip `longitude` stands in the mesh.
proof fn lemma_strip_slot(longitude: int, position: int, latitude_segments: int, longitude_segments: int)
    requires
        2 <= latitude_segments,
        0 <= longitude < longitude_segments,
        0 <= position < strip_len(latitude_segments),
    ensures
        0 <= longitude * strip_len(latitude_segments) + position < longitude_segments * strip_len(
            latitude_segments,
        ),
        (longitude * strip_len(latitude_segments) + position) / strip_len(latitude_segments)
            == longitude,
        (longitude * strip_len(latitude_segments) + position) % strip_len(latitude_segments)
            == position,
{
    let strip = strip_len(latitude_segments);
    lemma_fundamental_div_mod_converse(longitude * strip + position, strip, longitude, position);
    assert(0 <= longitude * strip + position < longitude_segments * strip) by (nonlinear_arith)
        requires
            0 <= longitude < longitude_segments,
            0 <= position < strip,
    ;
}

/// The strip and position of the `index`-th triangle of a mesh.
proof fn lemma_triangle_strip(index: int, latitude_segments: int, longitude_segments: int)
    requires
        2 <= latitude_segments,
        3 <= longitude_segments,
        0 <= index < longitude_segments * strip_len(latitude_segments),
    ensures
        0 <= index / strip_len(latitude_segments) < longitude_segments,
        0 <= index % strip_len(latitude_segments) < strip_len(latitude_segments),
        index == index / strip_len(latitude_segments) * strip_len(latitude_segments) + index
            % strip_len(latitude_segments),
{
    let strip = strip_len(latitude_segments);
    lemma_fundamental_div_mod(index, strip);
    let longitude = index / strip;
    assert(0 <= longitude < longitude_segments) by (nonlinear_arith)
        requires
            0 <= index < longitude_segments * strip,
            index == strip * longitude + index % strip,
            0 <= index % strip < strip,
    ;
}

/// The meridians on either side of `longitude`.
proof fn lemma_neighbour_meridians(longitude: int, longitude_segments: int)
    requires
        3 <= longitude_segments,
        0 <= longitude < longitude_segments,
    ensures
        (longitude + 1) % longitude_segments == if longitude + 1 == longitude_segments {
            0
        } else {
            longitude + 1
        },
        0 <= previous_meridian(longitude, longitude_segments) < longitude_segments,
        previous_meridian(longitude, longitude_segments) != longitude,
        (previous_meridian(longitude, longitude_segments) + 1) % longitude_segments == longitude,
        previous_meridian((longitude + 1) % longitude_segments, longitude_segments) == longitude,
{
    if longitude + 1 == longitude_segments {
        lemma_fundamental_div_mod_converse(longitude + 1, longitude_segments, 1, 0);
    } else {
        lemma_fundamental_div_mod_converse(longitude + 1, longitude_segments, 0, longitude + 1);
    }
    if longitude == 0 {
        lemma_fundamental_div_mod_converse(longitude_segments, longitude_segments, 1, 0);
    } else {
        lemma_fundamental_div_mod_converse(longitude, longitude_segments, 0, longitude);
    }
}

/// The mesh is closed and consistently wound: every edge of every triangle
/// is also an edge of another triangle, which runs along it the other way.
/// Returns that triangle's index and the number of the edge in it.
pub proof fn lemma_sphere_edge_shared(
    index: int,
    edge: int,
    latitude_segments: int,
    longitude_segments: int,
) -> (partner: (int, int))
    requires
        2 <= latitude_segments <= usize::MAX,
        3 <= longitude_segments <= usize::MAX,
        0 <= index < longitude_segments * strip_len(latitude_segments),
        0 <= edge < 3,
    ensures
        0 <= partner.0 < longitude_segments * strip_len(latitude_segments),
        partner.0 != index,
        0 <= partner.1 < 3,
        triangle_edge(sphere_triangle(partner.0, latitude_segments, longitude_segments), partner.1)
            == (
            triangle_edge(sphere_triangle(index, latitude_segments, longitude_segments), edge).1,
            triangle_edge(sphere_triangle(index, latitude_segments, longitude_segments), edge).0,
        ),
{
    let strip = strip_len(latitude_segments);
    lemma_triangle_strip(index, latitude_segments, longitude_segments);
    let longitude = index / strip;
    let position = index % strip;
    lemma_neighbour_meridians(longitude, longitude_segments);
    let previous = previous_meridian(longitude, longitude_segments);
    let next = (longitude + 1) % longitude_segments;
    let (other_strip, other_position, other_edge): (int, int, int) = if position == 0 {
        if edge == 0 {
            (previous, 0, 2)
        } else if edge == 1 {
            (longitude, 1, 2)
        } else {
            (next, 0, 0)
        }
    } else if position == strip - 1 {
        if edge == 0 {
            (previous, strip - 1, 1)
        } else if edge == 1 {
            (next, strip - 1, 0)
        } else {
            (longitude, strip - 2, 1)
        }
    } else if (position - 1) % 2 == 0 {
        if edge == 0 {
            (previous, position + 1, 2)
        } else if edge == 1 {
            (longitude, position + 1, 0)
        } else {
            (longitude, position - 1, 1)
        }
    } else {
        if edge == 0 {
            (longitude, position - 1, 1)
        } else if edge == 1 {
            (longitude, position + 1, 2)
        } else {
            (next, position - 1, 0)
        }
    };
    lemma_strip_slot(other_strip, other_position, latitude_segments, longitude_segments);
    let other = other_strip * strip + other_position;
    (other, other_edge)
}

/// The triangle of a mesh, and the edge in it, that runs along `edge` in
/// its direction, as (strip, position in the strip, edge number).
spec fn edge_owner(edge: (MeshVertex, MeshVertex), latitude_segments: int, longitude_segments: int) -> (int, int, int) {
    let strip = strip_len(latitude_segments);
    match edge {
        (MeshVertex::NorthPole, MeshVertex::Ring { longitude, .. }) => (longitude as int, 0, 0),
        (MeshVertex::Ring { longitude, .. }, MeshVertex::NorthPole) => (
            previous_meridian(longitude as int, longitude_segments),
            0,
            2,
        ),
        (MeshVertex::Ring { longitude, .. }, MeshVertex::SouthPole) => (longitude as int, strip - 1, 0),
        (MeshVertex::SouthPole, MeshVertex::Ring { longitude, .. }) => (
            previous_meridian(longitude as int, longitude_segments),
            strip - 1,
            1,
        ),
        (
            MeshVertex::Ring { latitude: from_latitude, longitude: from_longitude },
            MeshVertex::Ring { latitude: to_latitude, longitude: to_longitude },
        ) => {
            let a = from_latitude as int;
            let b = to_latitude as int;
            let i = from_longitude as int;
            let j = to_longitude as int;
            if a == b {
                if j == (i + 1) % longitude_segments {
                    (i, 2 * (a - 1), 1)
                } else {
                    (j, 2 * a - 1, 2)
                }
            } else if b == a + 1 {
                if j == i {
                    (i, 2 * a - 1, 0)
                } else {
                    (j, 2 * a, 0)
                }
            } else {
                if j == i {
                    (previous_meridian(i, longitude_segments), 2 * (a - 1), 2)
                } else {
                    (i, 2 * a - 3, 1)
                }
            }
        },
        _ => (0, 0, 0),
    }
}

/// An edge of the mesh, taken in its direction, tells which triangle it
/// comes from and which of its edges it is.
proof fn lemma_edge_owner(index: int, edge: int, latitude_segments: int, longitude_segments: int)
    requires
        2 <= latitude_segments <= usize::MAX,
        3 <= longitude_segments <= usize::MAX,
        0 <= index < longitude_segments * strip_len(latitude_segments),
        0 <= edge < 3,
    ensures
        edge_owner(
            triangle_edge(sphere_triangle(index, latitude_segments, longitude_segments), edge),
            latitude_segments,
            longitude_segments,
        ) == (index / strip_len(latitude_segments), index % strip_len(latitude_segments), edge),
{
    lemma_triangle_strip(index, latitude_segments, longitude_segments);
    let longitude = index / strip_len(latitude_segments);
    lemma_neighbour_meridians(longitude, longitude_segments);
    lemma_neighbour_meridians((longitude + 1) % longitude_segments, longitude_segments);
}

/// No two triangles of the mesh, and no two edges of one triangle, run
/// along the same edge in the same direction.
proof fn lemma_directed_edge_unique(
    index: int,
    edge: int,
    other: int,
    other_edge: int,
    latitude_segments: int,
    longitude_segments: int,
)
    requires
        2 <= latitude_segments <= usize::MAX,
        3 <= longitude_segments <= usize::MAX,
        0 <= index < longitude_segments * strip_len(latitude_segments),
        0 <= other < longitude_segments * strip_len(latitude_segments),
        0 <= edge < 3,
        0 <= other_edge < 3,
        triangle_edge(sphere_triangle(other, latitude_segments, longitude_segments), other_edge)
            == triangle_edge(sphere_triangle(index, latitude_segments, longitude_segments), edge),
    ensures
        other == index,
        other_edge == edge,
{
    lemma_edge_owner(index, edge, latitude_segments, longitude_segments);
    lemma_edge_owner(other, other_edge, latitude_segments, longitude_segments);
    lemma_triangle_strip(index, latitude_segments, longitude_segments);
    lemma_triangle_strip(other, latitude_segments, longitude_segments);
}

/// The triangles of a mesh that have `edge` as an edge, in either direction.
pub open spec fn edge_triangles(edge: (MeshVertex, MeshVertex), latitude_segments: int, longitude_segments: int) -> Set<int> {
    Set::new(
        |other: int|
            0 <= other < longitude_segments * strip_len(latitude_segments) && exists|other_edge: int|
                0 <= other_edge < 3 && (#[trigger] triangle_edge(
                    sphere_triangle(other, latitude_segments, longitude_segments),
                    other_edge,
                ) == edge || triangle_edge(
                    sphere_triangle(other, latitude_segments, longitude_segments),
                    other_edge,
                ) == (edge.1, edge.0)),
    )
}

/// Every edge of the mesh belongs to exactly two triangles.
pub proof fn lemma_sphere_edge_two_triangles(
    index: int,
    edge: int,
    latitude_segments: int,
    longitude_segments: int,
)
    requires
        2 <= latitude_segments <= usize::MAX,
        3 <= longitude_segments <= usize::MAX,
        0 <= index < longitude_segments * strip_len(latitude_segments),
        0 <= edge < 3,
    ensures
        edge_triangles(
            triangle_edge(sphere_triangle(index, latitude_segments, longitude_segments), edge),
            latitude_segments,
            longitude_segments,
        ).finite(),
        edge_triangles(
            triangle_edge(sphere_triangle(index, latitude_segments, longitude_segments), edge),
            latitude_segments,
            longitude_segments,
        ).len() == 2,
{
    let shared = triangle_edge(sphere_triangle(index, latitude_segments, longitude_segments), edge);
    let partner = lemma_sphere_edge_shared(index, edge, latitude_segments, longitude_segments);
    let owners = edge_triangles(shared, latitude_segments, longitude_segments);
    assert forall|other: int| #[trigger] owners.contains(other) implies other == index || other
        == partner.0 by {
        let other_edge = choose|other_edge: int|
            0 <= other_edge < 3 && (#[trigger] triangle_edge(
                sphere_triangle(other, latitude_segments, longitude_segments),
                other_edge,
            ) == shared || triangle_edge(
                sphere_triangle(other, latitude_segments, longitude_segments),
                other_edge,
            ) == (shared.1, shared.0));
        if triangle_edge(sphere_triangle(other, latitude_segments, longitude_segments), other_edge)
            == shared {
            lemma_directed_edge_unique(
                index,
                edge,
                other,
                other_edge,
                latitude_segments,
                longitude_segments,
            );
        } else {
            lemma_directed_edge_unique(
                partner.0,
                partner.1,
                other,
                other_edge,
                latitude_segments,
                longitude_segments,
            );
        }
    }
    assert(triangle_edge(sphere_triangle(index, latitude_segments, longitude_segments), edge)
        == shared);
    assert(owners.contains(index));
    assert(triangle_edge(sphere_triangle(partner.0, latitude_segments, longitude_segments), partner.1)
        == (shared.1, shared.0));
    assert(owners.contains(partner.0));
    assert(owners =~= set![index, partner.0]);
}

/// The poles are the corners of the strip ends: the north pole of the first
/// triangle of each strip, the south pole of the last.
pub proof fn lemma_sphere_poles(index: int, latitude_segments: int, longitude_segments: int)
    requires
        2 <= latitude_segments <= usize::MAX,
        3 <= longitude_segments <= usize::MAX,
        0 <= index < longitude_segments * strip_len(latitude_segments),
    ensures
        triangle_has_vertex(
            sphere_triangle(index, latitude_segments, longitude_segments),
            MeshVertex::NorthPole,
        ) <==> index % strip_len(latitude_segments) == 0,
        triangle_has_vertex(
            sphere_triangle(index, latitude_segments, longitude_segments),
            MeshVertex::SouthPole,
        ) <==> index % strip_len(latitude_segments) == strip_len(latitude_segments) - 1,
{
    lemma_triangle_strip(index, latitude_segments, longitude_segments);
}

/// Each pole is a corner of exactly `longitude_segments` triangles, one per
/// meridian strip.
pub proof fn lemma_sphere_pole_fans(latitude_segments: int, longitude_segments: int)
    requires
        2 <= latitude_segments <= usize::MAX,
        3 <= longitude_segments <= usize::MAX,
    ensures
        pole_triangles(MeshVertex::NorthPole, latitude_segments, longitude_segments).finite(),
        pole_triangles(MeshVertex::NorthPole, latitude_segments, longitude_segments).len()
            == longitude_segments,
        pole_triangles(MeshVertex::SouthPole, latitude_segments, longitude_segments).finite(),
        pole_triangles(MeshVertex::SouthPole, latitude_segments, longitude_segments).len()
            == longitude_segments,
{
    lemma_pole_fan(latitude_segments, longitude_segments, true);
    lemma_pole_fan(latitude_segments, longitude_segments, false);
}

/// One pole's triangles are the strip ends on its side, one per meridian.
proof fn lemma_pole_fan(latitude_segments: int, longitude_segments: int, north: bool)
    requires
        2 <= latitude_segments <= usize::MAX,
        3 <= longitude_segments <= usize::MAX,
    ensures
        ({
            let pole = if north { MeshVertex::NorthPole } else { MeshVertex::SouthPole };
            pole_triangles(pole, latitude_segments, longitude_segments).finite()
                && pole_triangles(pole, latitude_segments, longitude_segments).len()
                == longitude_segments
        }),
{
    let strip = strip_len(latitude_segments);
    let pole = if north { MeshVertex::NorthPole } else { MeshVertex::SouthPole };
    let end = if north { 0int } else { strip - 1 };
    let strips = set_int_range(0, longitude_segments);
    let fan = pole_triangles(pole, latitude_segments, longitude_segments);
    let strip_end = |longitude: int| longitude * strip + end;
    lemma_int_range(0, longitude_segments);
    assert forall|first: int, second: int|
        strips.contains(first) && strips.contains(second) && #[trigger] strip_end(first)
            == #[trigger] strip_end(second) implies first == second by {
        lemma_strip_slot(first, end, latitude_segments, longitude_segments);
        lemma_strip_slot(second, end, latitude_segments, longitude_segments);
    }
    assert(injective_on(strip_end, strips));
    assert forall|index: int| #[trigger] fan.contains(index) implies strips.map(strip_end).contains(
        index,
    ) by {
        lemma_sphere_poles(index, latitude_segments, longitude_segments);
        lemma_triangle_strip(index, latitude_segments, longitude_segments);
        assert(strips.contains(index / strip) && index == strip_end(index / strip));
    }
    assert forall|index: int| #[trigger] strips.map(strip_end).contains(index) implies fan.contains(
        index,
    ) by {
        let longitude = choose|longitude: int| strips.contains(longitude) && index == strip_end(longitude);
        lemma_strip_slot(longitude, end, latitude_segments, longitude_segments);
        lemma_sphere_poles(index, latitude_segments, longitude_segments);
    }
    assert(strips.map(strip_end) =~= fan);
    lemma_map_size(strips, fan, strip_end);
}

/// The triangles of a sphere mesh with the given numbers of latitude and
/// longitude segments.
pub fn sphere_topology(latitude_segments: usize, longitude_segments: usize) -> (result: Result<Vec<MeshTriangle>, SphereError>)
    ensures
        latitude_segments < 2 ==> result == Err::<Vec<MeshTriangle>, SphereError>(
            SphereError::TooFewLatitudeSegments,
        ),
        latitude_segments >= 2 && longitude_segments < 3 ==> result == Err::<
            Vec<MeshTriangle>,
            SphereError,
        >(SphereError::TooFewLongitudeSegments),
        latitude_segments >= 2 && longitude_segments >= 3 && longitude_segments * strip_len(
            latitude_segments as int,
        ) > usize::MAX ==> result == Err::<Vec<MeshTriangle>, SphereError>(
            SphereError::TooManySegments,
        ),
        latitude_segments >= 2 && longitude_segments >= 3 && longitude_segments * strip_len(
            latitude_segments as int,
        ) <= usize::MAX ==> (result matches Ok(triangles) && triangles@.len() == longitude_segments
            * strip_len(latitude_segments as int) && forall|index: int|
            0 <= index < triangles@.len() ==> #[trigger] triangles@[index] == sphere_triangle(
                index,
                latitude_segments as int,
                longitude_segments as int,
            )),
{
    if latitude_segments < 2 {
        return Err(SphereError::TooFewLatitudeSegments);
    }
    if longitude_segments < 3 {
        return Err(SphereError::TooFewLongitudeSegments);
    }
    let ghost lat = latitude_segments as int;
    let ghost lon = longitude_segments as int;
    let ghost strip = strip_len(lat);
    let triangle_count = match longitude_segments.checked_mul(latitude_segments - 1) {
        Some(count) => match count.checked_mul(2) {
            Some(count) => count,
            None => {
                assert(lon * strip > usize::MAX) by (nonlinear_arith)
                    requires
                        count * 2 > usize::MAX,
                        count == lon * (lat - 1),
                        strip == 2 * (lat - 1),
                ;
                return Err(SphereError::TooManySegments);
            },
        },
        None => {
            assert(lon * strip > usize::MAX) by (nonlinear_arith)
                requires
                    lon * (lat - 1) > usize::MAX,
                    strip == 2 * (lat - 1),
                    lat >= 2,
            ;
            return Err(SphereError::TooManySegments);
        },
    };
    assert(lon * strip == triangle_count) by (nonlinear_arith)
        requires
            triangle_count == lon * (lat - 1) * 2,
            strip == 2 * (lat - 1),
    ;
    let mut triangles: Vec<MeshTriangle> = Vec::with_capacity(triangle_count);
    let mut longitude: usize = 0;
    while longitude < longitude_segments
        invariant
            lat == latitude_segments,
            lon == longitude_segments,
            strip == strip_len(lat),
            lat >= 2,
            lon >= 3,
            longitude <= lon,
            lon * strip <= usize::MAX,
            triangles@.len() == longitude * strip,
            forall|index: int|
                0 <= index < triangles@.len() ==> #[trigger] triangles@[index] == sphere_triangle(
                    index,
                    lat,
                    lon,
                ),
        decreases lon - longitude,
    {
        let next_longitude = (longitude + 1) % longitude_segments;
        let ghost base = longitude * strip;
        proof {
            assert((longitude + 1) * strip <= lon * strip) by (nonlinear_arith)
                requires
                    longitude < lon,
                    strip > 0,
            ;
            assert((longitude + 1) * strip == base + strip) by (nonlinear_arith)
                requires
                    base == longitude * strip,
            ;
            lemma_fundamental_div_mod_converse(base, strip, longitude as int, 0);
        }
        triangles.push(
            (
                MeshVertex::NorthPole,
                MeshVertex::Ring { latitude: 1, longitude },
                MeshVertex::Ring { latitude: 1, longitude: next_longitude },
            ),
        );
        let mut latitude: usize = 1;
        while latitude < latitude_segments - 1
            invariant
                lat == latitude_segments,
                lon == longitude_segments,
                strip == strip_len(lat),
                lat >= 2,
                longitude < lon,
                next_longitude == (longitude + 1) % lon,
                base == longitude * strip,
                base + strip <= usize::MAX,
                1 <= latitude <= lat - 1,
                triangles@.len() == base + 1 + 2 * (latitude - 1),
                forall|index: int|
                    0 <= index < triangles@.len() ==> #[trigger] triangles@[index]
                        == sphere_triangle(index, lat, lon),
            decreases lat - latitude,
        {
            proof {
                lemma_fundamental_div_mod_converse(
                    base + 1 + 2 * (latitude - 1),
                    strip,
                    longitude as int,
                    1 + 2 * (latitude - 1),
                );
                lemma_fundamental_div_mod_converse(
                    base + 2 + 2 * (latitude - 1),
                    strip,
                    longitude as int,
                    2 + 2 * (latitude - 1),
                );
            }
            triangles.push(
                (
                    MeshVertex::Ring { latitude, longitude },
                    MeshVertex::Ring { latitude: latitude + 1, longitude },
                    MeshVertex::Ring { latitude, longitude: next_longitude },
                ),
            );
            triangles.push(
                (
                    MeshVertex::Ring { latitude, longitude: next_longitude },
                    MeshVertex::Ring { latitude: latitude + 1, longitude },
                    MeshVertex::Ring { latitude: latitude + 1, longitude: next_longitude },
                ),
            );
            latitude = latitude + 1;
        }
        proof {
            lemma_fundamental_div_mod_converse(base + strip - 1, strip, longitude as int, strip - 1);
        }
        triangles.push(
            (
                MeshVertex::Ring { latitude: latitude_segments - 1, longitude },
                MeshVertex::SouthPole,
                MeshVertex::Ring { latitude: latitude_segments - 1, longitude: next_longitude },
            ),
        );
        longitude = longitude + 1;
    }
    Ok(triangles)
}

} // verus!
