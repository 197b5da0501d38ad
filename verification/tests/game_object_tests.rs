use thrustler::game_objects::GameObject;
use thrustler::game_objects::Vertex;

#[test]
fn new_objects_get_fresh_identities() {
    // Identity is generated once at construction; two constructions yield
    // two identities.
    let a = GameObject::new(vec![Vertex::new([0, 0])]);
    let b = GameObject::new(vec![Vertex::new([0, 0])]);
    assert_ne!(a.id, b.id);
}

#[test]
fn new_object_keeps_its_vertices() {
    let vertices = vec![
        Vertex::new([1.0f32.to_bits(), 2.0f32.to_bits()]),
        Vertex::new([3.0f32.to_bits(), 4.0f32.to_bits()]),
    ];
    let object = GameObject::new(vertices);
    assert_eq!(object.vertices.len(), 2);
    assert_eq!(object.vertices[0].x(), 1.0f32.to_bits());
    assert_eq!(object.vertices[0].y(), 2.0f32.to_bits());
    assert_eq!(object.vertices[1].x(), 3.0f32.to_bits());
    assert_eq!(object.vertices[1].y(), 4.0f32.to_bits());
}

#[test]
fn identity_is_stable_across_frames() {
    // The identity does not change however often the object is read; it is
    // the cache key that keeps one upload alive across frames.
    let object = GameObject::new(vec![Vertex::new([0, 0])]);
    let id = object.id;
    for _ in 0..3 {
        assert_eq!(object.id, id);
    }
}
