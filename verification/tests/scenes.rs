use ray_tracing_weekend::{render, Image, Pixel};

type V3 = [f64; 3];

fn dot(a: V3, b: V3) -> f64 {
    a[0] * b[0] + a[1] * b[1] + a[2] * b[2]
}

fn quantize(color: V3) -> Pixel {
    Pixel::new(
        (color[0] * 255.999) as u8,
        (color[1] * 255.999) as u8,
        (color[2] * 255.999) as u8,
    )
}

fn camera_direction(w: usize, h: usize, width: usize, height: usize) -> V3 {
    let viewport_height = 2.0;
    let viewport_width = 16.0 / 9.0 * viewport_height;
    let u = w as f64 / (width - 1) as f64;
    let v = h as f64 / (height - 1) as f64;
    [
        -viewport_width / 2.0 + u * viewport_width,
        -viewport_height / 2.0 + v * viewport_height,
        -1.0,
    ]
}

fn sky(direction: V3) -> V3 {
    let t = 0.5 * (direction[1] / dot(direction, direction).sqrt() + 1.0);
    [
        (1.0 - t) + t * 0.5,
        (1.0 - t) + t * 0.7,
        (1.0 - t) + t * 1.0,
    ]
}

fn nearest_normal(spheres: &[(V3, f64)], direction: V3) -> Option<V3> {
    let mut closest = f64::INFINITY;
    let mut normal = None;
    for (center, radius) in spheres {
        let oc = [-center[0], -center[1], -center[2]];
        let a = dot(direction, direction);
        let half_b = dot(oc, direction);
        let c = dot(oc, oc) - radius * radius;
        let discriminant = half_b * half_b - a * c;
        if discriminant < 0.0 {
            continue;
        }
        let sqrtd = discriminant.sqrt();
        let mut root = (-half_b - sqrtd) / a;
        if root < 0.0 || root > closest {
            root = (-half_b + sqrtd) / a;
            if root < 0.0 || root > closest {
                continue;
            }
        }
        closest = root;
        let outward = [
            (root * direction[0] - center[0]) / radius,
            (root * direction[1] - center[1]) / radius,
            (root * direction[2] - center[2]) / radius,
        ];
        normal = Some(if dot(outward, direction) < 0.0 {
            outward
        } else {
            [-outward[0], -outward[1], -outward[2]]
        });
    }
    normal
}

fn shade(spheres: &[(V3, f64)], w: usize, h: usize, width: usize, height: usize) -> Pixel {
    let direction = camera_direction(w, h, width, height);
    match nearest_normal(spheres, direction) {
        Some(n) => quantize([0.5 * (n[0] + 1.0), 0.5 * (n[1] + 1.0), 0.5 * (n[2] + 1.0)]),
        None => quantize(sky(direction)),
    }
}

fn trace(spheres: &[(V3, f64)], width: usize, height: usize) -> Image {
    render(width, height, |w: usize, h: usize| shade(spheres, w, h, width, height))
}

#[test]
fn two_spheres_centre_pixel_shows_the_surface_normal() {
    let spheres = [([0.0, 0.0, -1.0], 0.5), ([0.0, -100.5, -1.0], 100.0)];
    let (width, height) = (400usize, 225usize);
    let image = trace(&spheres, width, height);
    assert_eq!(image.get_pixels().len(), width * height);
    let centre = image.get_pixels()[(height - 1 - 112) * width + 200];
    assert_eq!(centre, Pixel::new(128, 127, 255));
    let sky_there = quantize(sky(camera_direction(200, 112, width, height)));
    assert_eq!(sky_there, Pixel::new(191, 217, 255));
    assert_ne!(centre, sky_there);
}

#[test]
fn two_spheres_ground_fills_the_bottom_scanline() {
    let spheres = [([0.0, 0.0, -1.0], 0.5), ([0.0, -100.5, -1.0], 100.0)];
    let (width, height) = (400usize, 225usize);
    let image = trace(&spheres, width, height);
    let bottom = &image.get_pixels()[(height - 1) * width..];
    assert_eq!(bottom.len(), width);
    for (w, pixel) in bottom.iter().enumerate() {
        let sky_there = quantize(sky(camera_direction(w, 0, width, height)));
        assert_ne!(*pixel, sky_there);
        assert!(pixel.g > pixel.r && pixel.g > pixel.b);
    }
}

#[test]
fn empty_scene_is_the_sky_gradient_everywhere() {
    let (width, height) = (400usize, 225usize);
    let image = trace(&[], width, height);
    assert_eq!(image.get_pixels().len(), width * height);
    for (i, pixel) in image.get_pixels().iter().enumerate() {
        let (w, h) = (i % width, height - 1 - i / width);
        assert_eq!(*pixel, quantize(sky(camera_direction(w, h, width, height))));
        assert_eq!(pixel.b, 255);
    }
}

#[test]
fn empty_scene_runs_from_blue_at_the_top_to_white_at_the_bottom() {
    let (width, height) = (400usize, 225usize);
    let image = trace(&[], width, height);
    let pixels = image.get_pixels();
    assert_eq!(pixels[200], Pixel::new(146, 190, 255));
    assert_eq!(pixels[(height - 1) * width + 200], Pixel::new(237, 244, 255));
    for row in 1..height {
        assert!(pixels[row * width + 200].r >= pixels[(row - 1) * width + 200].r);
        assert!(pixels[row * width + 200].g >= pixels[(row - 1) * width + 200].g);
    }
}

#[test]
fn empty_scene_text_has_a_line_for_every_pixel() {
    let (width, height) = (400usize, 225usize);
    let text = trace(&[], width, height).ppm_string();
    let lines: Vec<&str> = text.lines().collect();
    assert_eq!(lines.len(), 3 + width * height);
    assert_eq!(&lines[..3], &["P3", "400 225", "255"]);
    assert_eq!(lines[3 + 200], "146 190 255");
    assert_eq!(lines[3 + (height - 1) * width + 200], "237 244 255");
}
