use ray_tracer::shape::{Shape, Sphere};

#[test]
fn sphere_keeps_its_id() {
    assert_eq!(Sphere::new(7).id, 7);
    assert_eq!(Sphere::new(0), Sphere { id: 0 });
    assert_ne!(Sphere::new(1), Sphere::new(2));
    assert_eq!(Shape::Sphere, Shape::Sphere);
}
