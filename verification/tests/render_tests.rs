use os_kernel::render::render;
use os_kernel::shell::Effect;
use os_kernel::shell::respond;

const W: usize = 60;
const H: usize = 20;
const MAX: u32 = 50;
const ROW: usize = W + 2;

fn text_of(chars: &[char]) -> String {
    chars.iter().collect()
}

#[test]
fn rendering_twice_gives_identical_output() {
    let a = render(W, H, MAX);
    let b = render(W, H, MAX);
    assert_eq!(a, b);
}

#[test]
fn mandelbrot_responses_are_identical() {
    let a = respond("mandelbrot");
    let b = respond("mandelbrot");
    assert_eq!(a.text, b.text);
    assert_eq!(a.effect, Effect::Continue);
}

#[test]
fn image_has_the_expected_shape() {
    let img = render(W, H, MAX);
    assert_eq!(img.len(), H * ROW);
    for y in 0..H {
        assert_eq!(img[y * ROW + W], '\r');
        assert_eq!(img[y * ROW + W + 1], '\n');
        for x in 0..W {
            let g = img[y * ROW + x];
            assert!(g == '#' || g == '*' || g == '+' || g == '.' || g == ' ');
        }
    }
}

#[test]
fn center_cell_never_escapes_and_renders_hash() {
    let img = render(W, H, MAX);
    assert_eq!(img[(H / 2) * ROW + W / 2], '#');
}

#[test]
fn far_corner_escapes_at_once_and_renders_blank() {
    let img = render(W, H, MAX);
    assert_eq!(img[0], ' ');
}

#[test]
fn image_is_symmetric_about_the_real_axis() {
    let img = render(W, H, MAX);
    let row = |y: usize| text_of(&img[y * ROW..(y + 1) * ROW]);
    assert_eq!(row(9), row(11));
    assert_eq!(row(5), row(15));
    assert_eq!(row(1), row(19));
}

#[test]
fn mandelbrot_response_is_banner_plus_image() {
    let r = respond("mandelbrot");
    let text = text_of(&r.text);
    let banner = "Drawing Mandelbrot fractal...\r\n";
    assert!(text.starts_with(banner));
    assert_eq!(text.len(), banner.len() + H * ROW);
    let img = text_of(&render(W, H, MAX));
    assert_eq!(&text[banner.len()..], img);
}
