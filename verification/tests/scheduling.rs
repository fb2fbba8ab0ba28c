use rust_tracer::buffer::PixelBuffer;
use rust_tracer::color::{saturate_channel, Rgba};
use rust_tracer::scheduler::{split_even, ProducerRange, SuccessTable};

#[test]
fn split_even_exact_values() {
    // Span of 10 columns in 3 ranges: chunk of 10 / 3 + 1 = 4.
    let r = split_even(0, 10, 3);
    assert_eq!(r, vec![(0, 4), (4, 8), (8, 10)]);
}

#[test]
fn split_even_single_range() {
    let r = split_even(0, 7, 1);
    assert_eq!(r, vec![(0, 7)]);
}

#[test]
fn split_even_with_offset() {
    let r = split_even(100, 110, 2);
    assert_eq!(r, vec![(100, 106), (106, 110)]);
}

#[test]
fn split_even_more_ranges_than_columns_pads_with_empty() {
    let r = split_even(0, 3, 8);
    assert_eq!(r.len(), 8);
    assert_eq!(r[0].0, 0);
    assert_eq!(r[7].1, 3);
    for w in r.windows(2) {
        assert_eq!(w[0].1, w[1].0);
    }
    for (a, b) in &r {
        assert!(a <= b);
    }
}

#[test]
fn split_even_covers_contiguously() {
    for n in 1..=9u64 {
        let r = split_even(0, 9, n);
        assert_eq!(r.len(), n as usize);
        assert_eq!(r[0].0, 0);
        assert_eq!(r[r.len() - 1].1, 9);
        let mut seen = vec![false; 9];
        for (a, b) in &r {
            assert!(a <= b);
            for c in *a..*b {
                assert!(!seen[c as usize], "column {} covered twice", c);
                seen[c as usize] = true;
            }
        }
        assert!(seen.iter().all(|&c| c), "columns missed with n = {}", n);
    }
}

#[test]
fn producer_range_carries_its_bounds() {
    let r = ProducerRange { from_x: 2, to_x: 6, from_y: 0, to_y: 4 };
    let s = r;
    assert_eq!(s.from_x, 2);
    assert_eq!(s.to_x, 6);
    assert_eq!(s.from_y, 0);
    assert_eq!(s.to_y, 4);
}

#[test]
fn success_table_marks_and_reports() {
    let mut t = SuccessTable::new(3, 2);
    assert_eq!(t.width(), 3);
    assert_eq!(t.height(), 2);
    assert!(!t.is_marked(1, 1));
    t.mark(1, 1);
    assert!(t.is_marked(1, 1));
    assert!(!t.is_marked(1, 0));
    assert!(!t.is_marked(2, 1));
}

#[test]
fn missing_lists_exactly_the_unmarked_pixels() {
    let mut t = SuccessTable::new(2, 3);
    t.mark(0, 1);
    t.mark(1, 0);
    t.mark(1, 2);
    let gaps = t.missing();
    assert_eq!(gaps, vec![(0, 0), (0, 2), (1, 1)]);
}

#[test]
fn all_marked_only_when_complete() {
    let mut t = SuccessTable::new(2, 2);
    assert!(!t.all_marked());
    t.mark(0, 0);
    t.mark(0, 1);
    t.mark(1, 0);
    assert!(!t.all_marked());
    t.mark(1, 1);
    assert!(t.all_marked());
    assert_eq!(t.missing(), vec![]);
}

#[test]
fn pixel_buffer_put_and_get() {
    let mut b = PixelBuffer::new(4, 3);
    let red = Rgba::new(255, 0, 0, 255);
    assert_eq!(b.get_pixel(2, 1), Rgba::zero());
    b.put_pixel(2, 1, red);
    assert_eq!(b.get_pixel(2, 1), red);
    assert_eq!(b.get_pixel(1, 2), Rgba::zero());
    assert_eq!(b.width(), 4);
    assert_eq!(b.height(), 3);
}

/// Delivery with injected failures, then the gap-fill pass: afterwards every
/// pixel of the image holds the color computed for it, none is left at the
/// initial value, and the gap list is empty on a re-scan.
#[test]
fn render_completes_under_injected_send_failures() {
    let width: usize = 8;
    let height: usize = 5;
    let color_of = |x: usize, y: usize| Rgba::new(x as u8, y as u8, 7, 255);
    let mut table = SuccessTable::new(width, height);
    let mut buffer = PixelBuffer::new(width, height);

    // Producer pass: every third send "fails" and is never delivered.
    let mut counter: usize = 0;
    for x in 0..width {
        for y in 0..height {
            counter += 1;
            if counter % 3 == 0 {
                continue;
            }
            buffer.put_pixel(x, y, color_of(x, y));
            table.mark(x, y);
        }
    }
    assert!(!table.all_marked());

    // Gap-fill pass: recompute exactly what the table reports missing.
    let gaps = table.missing();
    assert!(!gaps.is_empty());
    let fills: Vec<(usize, usize, Rgba)> =
        gaps.iter().map(|&(x, y)| (x, y, color_of(x, y))).collect();
    buffer.fill_gaps(&fills);
    for &(x, y) in &gaps {
        table.mark(x, y);
    }

    assert!(table.all_marked());
    assert_eq!(table.missing(), vec![]);
    for x in 0..width {
        for y in 0..height {
            assert_eq!(buffer.get_pixel(x, y), color_of(x, y));
        }
    }
}

#[test]
fn saturate_channel_caps_at_byte_range() {
    assert_eq!(saturate_channel(0), 0);
    assert_eq!(saturate_channel(128), 128);
    assert_eq!(saturate_channel(255), 255);
    assert_eq!(saturate_channel(256), 255);
    // A bright emitter scales far past the byte range and is capped.
    assert_eq!(saturate_channel(25_599), 255);
}

#[test]
fn quantization_of_unit_radiance() {
    // The renderer scales a linear channel in [0, 1] by 255.99,
    // truncates, then caps.
    let quant = |v: f64| saturate_channel((255.99 * v) as u64);
    assert_eq!(quant(0.0), 0);
    assert_eq!(quant(0.5), 127);
    assert_eq!(quant(1.0), 255);
    assert_eq!(quant(100.0), 255);
}
