use raytracing_weekend::scene::material::reflects;

#[test]
fn test_total_internal_reflection_always_reflects() {
    assert!(reflects(true, &0.0, &1.0));
    assert!(reflects(true, &0.0, &0.0));
    assert!(reflects(true, &1.0, &0.0));
    assert!(reflects(true, &f64::NAN, &f64::NAN));
    let mut draw = 0.0;
    while draw <= 1.0 {
        assert!(reflects(true, &0.04, &draw));
        draw += 0.125;
    }
}

#[test]
fn test_reflects_where_the_reflectance_exceeds_the_draw() {
    assert!(reflects(false, &0.3, &0.2));
    assert!(reflects(false, &1.0, &0.999));
}

#[test]
fn test_refracts_where_the_draw_is_not_exceeded() {
    assert!(!reflects(false, &0.1, &0.5));
    assert!(!reflects(false, &0.04, &0.04));
    assert!(!reflects(false, &0.0, &0.0));
}

#[test]
fn test_reflects_on_integers() {
    assert!(reflects(false, &5, &4));
    assert!(!reflects(false, &4, &4));
    assert!(!reflects(false, &3, &4));
    assert!(reflects(true, &3, &4));
}
