use pixel_shader::partition::{chunk_bounds, partition};
use pixel_shader::frame::RenderState;
use pixel_shader::pixel::pack_rgb;
use pixel_shader::render::{render_chunk, split_chunks};
use rayon::iter::{IntoParallelIterator, ParallelIterator};

#[test]
fn uneven_split_gives_remainder_to_last_chunk() {
    assert_eq!(partition(10, 3), vec![(0, 3), (3, 6), (6, 10)]);
}

#[test]
fn even_split_has_equal_chunks() {
    assert_eq!(partition(640_000, 8).len(), 8);
    for (k, &(s, e)) in partition(640_000, 8).iter().enumerate() {
        assert_eq!(s, k * 80_000);
        assert_eq!(e, (k + 1) * 80_000);
    }
}

#[test]
fn fewer_pixels_than_workers_puts_all_in_last_chunk() {
    assert_eq!(partition(2, 4), vec![(0, 0), (0, 0), (0, 0), (0, 2)]);
}

#[test]
fn empty_buffer_and_single_worker() {
    assert_eq!(partition(0, 3), vec![(0, 0), (0, 0), (0, 0)]);
    assert_eq!(partition(7, 1), vec![(0, 7)]);
}

#[test]
fn chunk_bounds_match_partition() {
    let parts = partition(1001, 6);
    for k in 0..6 {
        assert_eq!(chunk_bounds(1001, 6, k), parts[k]);
    }
}

#[test]
fn chunks_cover_every_index_once() {
    for n in 0..40usize {
        for p in 1..9usize {
            let mut seen = vec![0u32; n];
            let parts = partition(n, p);
            assert_eq!(parts.len(), p);
            assert_eq!(parts[0].0, 0);
            assert_eq!(parts[p - 1].1, n);
            for (k, &(s, e)) in parts.iter().enumerate() {
                if k + 1 < p {
                    assert_eq!(e - s, n / p);
                    assert_eq!(e, parts[k + 1].0);
                } else {
                    assert_eq!(e - s, n / p + n % p);
                }
                for i in s..e {
                    seen[i] += 1;
                }
            }
            assert!(seen.iter().all(|&c| c == 1));
        }
    }
}

fn shade(i: usize) -> u32 {
    let (x, y) = (i % 800, i / 800);
    ((x * 7 + y * 13) % 256) as u32 * 0x0001_0101
}

#[test]
fn chunked_render_matches_serial_render() {
    let n = 800 * 800;
    let mut serial = vec![0u32; n];
    render_chunk(&mut serial, 0, &shade);
    for p in [1usize, 2, 3, 7, 8, 16] {
        let mut chunked = vec![0u32; n];
        for (s, e) in partition(n, p) {
            render_chunk(&mut chunked[s..e], s, &shade);
        }
        assert_eq!(chunked, serial);
    }
}

#[test]
fn render_chunk_uses_flat_index() {
    let mut chunk = vec![0u32; 4];
    render_chunk(&mut chunk, 10, &|i: usize| i as u32 * 2);
    assert_eq!(chunk, vec![20, 22, 24, 26]);
}

#[test]
fn split_chunks_follows_partition() {
    let mut buf: Vec<u32> = (0..10).collect();
    let chunks = split_chunks(&mut buf, 3);
    let seen: Vec<(usize, Vec<u32>)> = chunks.into_iter().map(|(s, c)| (s, c.to_vec())).collect();
    assert_eq!(
        seen,
        vec![(0, vec![0, 1, 2]), (3, vec![3, 4, 5]), (6, vec![6, 7, 8, 9])]
    );
}

#[test]
fn split_chunks_writes_reach_the_buffer() {
    let mut buf = vec![0u32; 11];
    for (s, c) in split_chunks(&mut buf, 4) {
        for (j, p) in c.iter_mut().enumerate() {
            *p = (s + j) as u32;
        }
    }
    assert_eq!(buf, (0..11).collect::<Vec<u32>>());
}

fn smoothstep(edge0: f32, edge1: f32, x: f32) -> f32 {
    let x = ((x - edge0) / (edge1 - edge0)).clamp(0.0, 1.0);
    x * x * (3.0 - 2.0 * x)
}

fn circle(x: f32, y: f32, radius: f32, feather: f32) -> f32 {
    let d2 = x * x + y * y;
    smoothstep(d2, d2 + feather, radius * radius)
}

fn donut(x: f32, y: f32, outer: f32, inner: f32, feather: f32) -> f32 {
    circle(x, y, outer, feather) - circle(x, y, inner, feather)
}

fn two_donuts(i: usize, w: usize, h: usize, t: f32) -> u32 {
    let aspect = w as f32 / h as f32;
    let x = ((i % w) as f32 / w as f32 - 0.5) * aspect;
    let y = (i / w) as f32 / h as f32 - 0.5;
    let c = donut(x, y, 0.5, 0.4, 0.01) + donut(x - t.sin(), y, 0.5, 0.4, 0.01);
    let c = c.clamp(0.0, 1.0);
    let b = (c * 255.0) as u8;
    pack_rgb(b, b, b)
}

#[test]
fn two_donut_frame_is_identical_serial_and_parallel() {
    let (w, h) = (800usize, 800usize);
    let shade = |i: usize| two_donuts(i, w, h, 0.0);
    let mut serial = RenderState::new(w, h, pack_rgb(25, 25, 25));
    serial.render_serial(&shade);
    assert!(serial.buffer().iter().any(|&p| p != 0));
    for p in [1usize, 3, 4, 8, 13] {
        let mut parallel = RenderState::new(w, h, pack_rgb(25, 25, 25));
        split_chunks(parallel.buffer_mut(), p)
            .into_par_iter()
            .for_each(|(s, c)| render_chunk(c, s, &shade));
        assert_eq!(parallel.buffer(), serial.buffer());
    }
}

#[test]
fn render_serial_shades_by_flat_index() {
    let mut s = RenderState::new(3, 2, 0);
    s.render_serial(&|i: usize| 100 + i as u32);
    assert_eq!(s.buffer(), &[100u32, 101, 102, 103, 104, 105][..]);
    assert_eq!((s.width(), s.height()), (3, 2));
}
