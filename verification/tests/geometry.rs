use ai_rt::sphere::{sphere_topology, MeshVertex, SphereError};

fn ring(latitude: usize, longitude: usize) -> MeshVertex {
    MeshVertex::Ring { latitude, longitude }
}

#[test]
fn sphere_generation_has_configurable_triangle_density() {
    let coarse = sphere_topology(4, 8).unwrap();
    let detailed = sphere_topology(8, 16).unwrap();

    assert_eq!(coarse.len(), 2 * 8 * (4 - 1));
    assert_eq!(detailed.len(), 2 * 16 * (8 - 1));
}

#[test]
fn sphere_strips_run_from_pole_to_pole() {
    let triangles = sphere_topology(3, 3).unwrap();
    assert_eq!(triangles.len(), 12);
    assert_eq!(triangles[0], (MeshVertex::NorthPole, ring(1, 0), ring(1, 1)));
    assert_eq!(triangles[1], (ring(1, 0), ring(2, 0), ring(1, 1)));
    assert_eq!(triangles[2], (ring(1, 1), ring(2, 0), ring(2, 1)));
    assert_eq!(triangles[3], (ring(2, 0), MeshVertex::SouthPole, ring(2, 1)));
    // The last strip closes the sphere back onto meridian 0.
    assert_eq!(triangles[8], (MeshVertex::NorthPole, ring(1, 2), ring(1, 0)));
    assert_eq!(triangles[11], (ring(2, 2), MeshVertex::SouthPole, ring(2, 0)));
}

#[test]
fn sphere_with_two_latitude_segments_has_only_caps() {
    let triangles = sphere_topology(2, 3).unwrap();
    assert_eq!(triangles.len(), 6);
    assert_eq!(triangles[1], (ring(1, 0), MeshVertex::SouthPole, ring(1, 1)));
}

#[test]
fn sphere_generation_rejects_degenerate_segment_counts() {
    assert_eq!(sphere_topology(1, 8), Err(SphereError::TooFewLatitudeSegments));
    assert_eq!(sphere_topology(1, 1), Err(SphereError::TooFewLatitudeSegments));
    assert_eq!(sphere_topology(4, 2), Err(SphereError::TooFewLongitudeSegments));
    assert_eq!(
        sphere_topology(usize::MAX, 3),
        Err(SphereError::TooManySegments)
    );
    assert_eq!(
        sphere_topology(2, usize::MAX / 2 + 1),
        Err(SphereError::TooManySegments)
    );
}

fn edges(triangle: &(MeshVertex, MeshVertex, MeshVertex)) -> [(MeshVertex, MeshVertex); 3] {
    [
        (triangle.0, triangle.1),
        (triangle.1, triangle.2),
        (triangle.2, triangle.0),
    ]
}

#[test]
fn sphere_mesh_is_closed_and_consistently_wound() {
    for (latitude_segments, longitude_segments) in [(2, 3), (3, 3), (4, 5)] {
        let triangles = sphere_topology(latitude_segments, longitude_segments).unwrap();
        for (index, triangle) in triangles.iter().enumerate() {
            for (from, to) in edges(triangle) {
                let partners = triangles
                    .iter()
                    .enumerate()
                    .filter(|(other, candidate)| {
                        *other != index && edges(candidate).contains(&(to, from))
                    })
                    .count();
                assert_eq!(partners, 1);
                let owners = triangles
                    .iter()
                    .filter(|candidate| {
                        edges(candidate).contains(&(from, to))
                            || edges(candidate).contains(&(to, from))
                    })
                    .count();
                assert_eq!(owners, 2);
            }
        }
    }
}

#[test]
fn sphere_poles_are_shared_by_one_triangle_per_strip() {
    let triangles = sphere_topology(4, 5).unwrap();
    let has = |triangle: &(MeshVertex, MeshVertex, MeshVertex), vertex: MeshVertex| {
        triangle.0 == vertex || triangle.1 == vertex || triangle.2 == vertex
    };
    let north: Vec<usize> = (0..triangles.len())
        .filter(|&index| has(&triangles[index], MeshVertex::NorthPole))
        .collect();
    let south: Vec<usize> = (0..triangles.len())
        .filter(|&index| has(&triangles[index], MeshVertex::SouthPole))
        .collect();
    assert_eq!(north, vec![0, 6, 12, 18, 24]);
    assert_eq!(south, vec![5, 11, 17, 23, 29]);
}
