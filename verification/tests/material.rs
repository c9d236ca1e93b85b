use pathtracer::material::MaterialKind;

#[test]
fn only_a_light_emits() {
    assert!(MaterialKind::DiffuseLight.emits());
    assert!(!MaterialKind::Lambertian.emits());
    assert!(!MaterialKind::Metal.emits());
    assert!(!MaterialKind::Dielectric.emits());
}

#[test]
fn a_light_never_scatters() {
    assert!(!MaterialKind::DiffuseLight.scatters(true));
    assert!(!MaterialKind::DiffuseLight.scatters(false));
}

#[test]
fn matte_and_glass_always_scatter() {
    assert!(MaterialKind::Lambertian.scatters(true));
    assert!(MaterialKind::Lambertian.scatters(false));
    assert!(MaterialKind::Dielectric.scatters(true));
    assert!(MaterialKind::Dielectric.scatters(false));
}

#[test]
fn a_metal_scatters_what_leaves_it() {
    assert!(MaterialKind::Metal.scatters(true));
    assert!(!MaterialKind::Metal.scatters(false));
}
