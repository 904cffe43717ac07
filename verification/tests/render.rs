use rand_distr::{Distribution, Uniform};
use raytracing_weekend::math::clamp;
use raytracing_weekend::rendering::trace;
use raytracing_weekend::scene::entity::nearest_root;
use raytracing_weekend::{render, ConfigError, ImageSettings, Pixel, Scene};
use std::cell::RefCell;

#[test]
fn test_render_refuses_a_width_that_is_not_positive() {
    let asked = RefCell::new(0);
    let shade = |_: i32, _: i32| {
        *asked.borrow_mut() += 1;
        Pixel::new()
    };
    for width in [0, -1, i32::MIN] {
        let res = render(&ImageSettings { width, height: 10 }, &shade);
        assert!(matches!(res, Err(ConfigError::NonPositiveWidth)));
    }
    let res = render(&ImageSettings { width: 0, height: 0 }, &shade);
    assert!(matches!(res, Err(ConfigError::NonPositiveWidth)));
    assert_eq!(*asked.borrow(), 0);
}

#[test]
fn test_render_refuses_a_height_that_is_not_positive() {
    let asked = RefCell::new(0);
    let shade = |_: i32, _: i32| {
        *asked.borrow_mut() += 1;
        Pixel::new()
    };
    for height in [0, -1, i32::MIN] {
        let res = render(&ImageSettings { width: 10, height }, &shade);
        assert!(matches!(res, Err(ConfigError::NonPositiveHeight)));
    }
    assert_eq!(*asked.borrow(), 0);
}

#[test]
fn test_render_asks_for_every_pixel_row_by_row() {
    let asked: RefCell<Vec<(i32, i32)>> = RefCell::new(vec![]);
    let shade = |i: i32, j: i32| {
        asked.borrow_mut().push((i, j));
        Pixel::from(i, j, 0)
    };
    let result = render(&ImageSettings { width: 3, height: 2 }, shade).unwrap();
    assert_eq!(*asked.borrow(), vec![(0, 0), (1, 0), (2, 0), (0, 1), (1, 1), (2, 1)]);
    assert_eq!(result.width, 3);
    assert_eq!(result.height, 2);
    assert_eq!(
        result.pixels,
        vec![
            Pixel::from(0, 0, 0),
            Pixel::from(1, 0, 0),
            Pixel::from(2, 0, 0),
            Pixel::from(0, 1, 0),
            Pixel::from(1, 1, 0),
            Pixel::from(2, 1, 0)
        ]
    );
}

#[test]
fn test_render_puts_each_pixel_at_its_place() {
    let image = ImageSettings { width: 17, height: 5 };
    let result = render(&image, |i: i32, j: i32| Pixel::from(i, j, i * j)).unwrap();
    assert_eq!(result.pixels.len(), 17 * 5);
    for j in 0..5 {
        for i in 0..17 {
            assert_eq!(result.pixels[(j * 17 + i) as usize], Pixel::from(i, j, i * j));
        }
    }
    for k in 0..result.pixels.len() {
        assert_eq!(result.pixels[k].r(), (k % 17) as i32);
        assert_eq!(result.pixels[k].g(), (k / 17) as i32);
    }
}

#[test]
fn test_render_of_a_single_pixel() {
    let result = render(&ImageSettings { width: 1, height: 1 }, |_, _| Pixel::from(1, 2, 3));
    let result = result.unwrap();
    assert_eq!((result.width, result.height), (1, 1));
    assert_eq!(result.pixels, vec![Pixel::from(1, 2, 3)]);
}

#[test]
fn test_render_of_a_single_row_and_a_single_column() {
    let row = render(&ImageSettings { width: 4, height: 1 }, |i, _| Pixel::from(i, 0, 0)).unwrap();
    assert_eq!(row.pixels.len(), 4);
    assert_eq!(row.pixels[3], Pixel::from(3, 0, 0));
    let column =
        render(&ImageSettings { width: 1, height: 4 }, |_, j| Pixel::from(0, j, 0)).unwrap();
    assert_eq!(column.pixels.len(), 4);
    assert_eq!(column.pixels[3], Pixel::from(0, 3, 0));
}

// What follows is a small path tracer in floating point around the library:
// one diffuse sphere on a large ground sphere under a sky.

#[derive(Clone, Copy, Debug, PartialEq)]
struct V(f64, f64, f64);

fn plus(a: V, b: V) -> V {
    V(a.0 + b.0, a.1 + b.1, a.2 + b.2)
}

fn minus(a: V, b: V) -> V {
    V(a.0 - b.0, a.1 - b.1, a.2 - b.2)
}

fn times(a: V, k: f64) -> V {
    V(a.0 * k, a.1 * k, a.2 * k)
}

fn dot(a: V, b: V) -> f64 {
    a.0 * b.0 + a.1 * b.1 + a.2 * b.2
}

fn norm(v: V) -> V {
    times(v, 1.0 / dot(v, v).sqrt())
}

#[derive(Clone, Copy)]
struct Ray {
    orig: V,
    dir: V,
}

struct Ball {
    center: V,
    radius: f64,
    albedo: V,
}

struct Hit {
    point: V,
    normal: V,
    albedo: V,
}

fn hit(ball: &Ball, r: &Ray, t_min: f64, t_max: f64) -> Option<(f64, Hit)> {
    let oc = minus(r.orig, ball.center);
    let a = dot(r.dir, r.dir);
    let half_b = dot(oc, r.dir);
    let c = dot(oc, oc) - ball.radius * ball.radius;
    let discriminant = half_b * half_b - a * c;
    if discriminant < 0.0 {
        return None;
    }
    let d_sqrt = discriminant.sqrt();
    let t = nearest_root((-half_b - d_sqrt) / a, (-half_b + d_sqrt) / a, &t_min, &t_max)?;
    let point = plus(r.orig, times(r.dir, t));
    let outward = times(minus(point, ball.center), 1.0 / ball.radius);
    let normal = if dot(r.dir, outward) < 0.0 { outward } else { times(outward, -1.0) };
    Some((t, Hit { point, normal, albedo: ball.albedo }))
}

fn random_in_hemisphere(normal: V) -> V {
    let mut rng = rand::thread_rng();
    let side = Uniform::new_inclusive(-1.0, 1.0);
    loop {
        let p = V(side.sample(&mut rng), side.sample(&mut rng), side.sample(&mut rng));
        if dot(p, p) >= 1.0 {
            continue;
        }
        return if dot(p, normal) > 0.0 { p } else { times(p, -1.0) };
    }
}

fn background(r: &Ray) -> V {
    let t = 0.5 * (norm(r.dir).1 + 1.0);
    plus(times(V(1.0, 1.0, 1.0), 1.0 - t), times(V(0.5, 0.7, 1.0), t))
}

fn closest(scene: &Scene<Ball>, r: &Ray) -> Option<Hit> {
    let found = scene.intersect(0.001, f64::INFINITY, |e: &Ball, lo, hi| hit(e, r, lo, hi));
    found.map(|(_, h)| h)
}

// A diffuse surface: the ray goes on in a random direction of the hemisphere
// around the normal.
fn scatter(_r: &Ray, h: Hit) -> Option<(V, Ray)> {
    Some((h.albedo, Ray { orig: h.point, dir: random_in_hemisphere(h.normal) }))
}

fn filter(a: V, b: V) -> V {
    V(a.0 * b.0, a.1 * b.1, a.2 * b.2)
}

fn encode(c: V) -> Pixel {
    Pixel::from(
        (256.0 * clamp(c.0.sqrt(), 0.0, 0.999)) as i32,
        (256.0 * clamp(c.1.sqrt(), 0.0, 0.999)) as i32,
        (256.0 * clamp(c.2.sqrt(), 0.0, 0.999)) as i32,
    )
}

fn two_spheres() -> Scene<Ball> {
    let mut scene = Scene::new();
    scene.add_entity(Ball { center: V(0.0, -100.5, -1.0), radius: 100.0, albedo: V(0.5, 0.5, 0.5) });
    scene.add_entity(Ball { center: V(0.0, 0.0, -1.0), radius: 0.5, albedo: V(0.4, 0.2, 0.1) });
    scene
}

// The camera looks from the origin down the negative z-axis.
fn gen_ray(image: &ImageSettings, s: f64, t: f64) -> Ray {
    let viewport_height = 2.0;
    let viewport_width = viewport_height * image.width as f64 / image.height as f64;
    let horizontal = V(viewport_width, 0.0, 0.0);
    let vertical = V(0.0, viewport_height, 0.0);
    let upper_left =
        plus(minus(times(vertical, 0.5), times(horizontal, 0.5)), V(0.0, 0.0, -1.0));
    Ray {
        orig: V(0.0, 0.0, 0.0),
        dir: minus(plus(upper_left, times(horizontal, s)), times(vertical, t)),
    }
}

fn render_two_spheres(image: &ImageSettings, max_depth: i32) -> Vec<Pixel> {
    let scene = two_spheres();
    let shade = |i: i32, j: i32| {
        let s = (i as f64 + 0.5) / (image.width as f64 - 1.0);
        let t = (j as f64 + 0.5) / (image.height as f64 - 1.0);
        let r = gen_ray(image, s, t);
        let black = V(0.0, 0.0, 0.0);
        let intersect = |ray: &Ray| closest(&scene, ray);
        encode(trace(&r, max_depth, black, &intersect, &scatter, &background, &filter))
    };
    let result = render(image, shade).unwrap();
    assert_eq!(result.width, image.width);
    assert_eq!(result.height, image.height);
    result.pixels
}

#[test]
fn test_render_two_spheres_fills_the_buffer_with_bytes() {
    let image = ImageSettings { width: 100, height: 56 };
    let pixels = render_two_spheres(&image, 1);
    assert_eq!(pixels.len(), 100 * 56);
    for p in pixels.iter() {
        assert!(0 <= p.r() && p.r() <= 255);
        assert!(0 <= p.g() && p.g() <= 255);
        assert!(0 <= p.b() && p.b() <= 255);
    }
}

#[test]
fn test_render_two_spheres_with_one_bounce_shows_sky_and_shadow() {
    let image = ImageSettings { width: 100, height: 56 };
    let pixels = render_two_spheres(&image, 1);
    // the sky in the upper left corner; with one bounce every surface is black
    let sky = pixels[0];
    assert!(sky.r() > 0 && sky.g() > 0 && sky.b() > 0);
    assert!(sky.b() >= sky.r());
    let centre = pixels[28 * 100 + 50];
    assert_eq!(centre, Pixel::from(0, 0, 0));
    let ground = pixels[55 * 100 + 50];
    assert_eq!(ground, Pixel::from(0, 0, 0));
}

#[test]
fn test_render_two_spheres_with_more_bounces_lights_the_sphere() {
    let image = ImageSettings { width: 40, height: 22 };
    let pixels = render_two_spheres(&image, 50);
    assert_eq!(pixels.len(), 40 * 22);
    let lit = pixels.iter().filter(|p| p.r() > 0 || p.g() > 0 || p.b() > 0).count();
    // the sky alone is more than a third of the picture
    assert!(lit > 40 * 22 / 3);
    for p in pixels.iter() {
        assert!(0 <= p.r() && p.r() <= 255);
        assert!(0 <= p.g() && p.g() <= 255);
        assert!(0 <= p.b() && p.b() <= 255);
    }
}

#[test]
fn test_render_without_depth_is_all_black() {
    let image = ImageSettings { width: 8, height: 5 };
    let pixels = render_two_spheres(&image, 0);
    assert_eq!(pixels, vec![Pixel::new(); 40]);
}
