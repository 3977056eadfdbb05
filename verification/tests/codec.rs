use logoboy::decode_logo;
use logoboy::encode_logo;

#[test]
fn decode_single_high_nibble() {
    // Byte 0's high nibble is nibble 0: it paints the top-left 4-pixel run.
    let mut raw: Vec<u8> = vec![0x00; 48];
    raw[0] = 0xF0;
    let pixels = decode_logo(&raw);
    assert_eq!(pixels.len(), 384);
    for i in 0..384 {
        if i < 4 {
            assert_eq!(pixels[i], 255);
        } else {
            assert_eq!(pixels[i], 0);
        }
    }
}

#[test]
fn decode_single_low_nibble() {
    // Byte 0's low nibble is nibble 1: it paints the run on row 1, columns 0..4.
    let mut raw: Vec<u8> = vec![0x00; 48];
    raw[0] = 0x0F;
    let pixels = decode_logo(&raw);
    for i in 0..384 {
        if i >= 48 && i < 52 {
            assert_eq!(pixels[i], 255);
        } else {
            assert_eq!(pixels[i], 0);
        }
    }
}

#[test]
fn decode_bottom_half_nibble() {
    // Nibble 48 (byte 24, high bits) starts the bottom half: row 4, columns 0..4.
    let mut raw: Vec<u8> = vec![0x00; 48];
    raw[24] = 0xF0;
    let pixels = decode_logo(&raw);
    for i in 0..384 {
        if i >= 4 * 48 && i < 4 * 48 + 4 {
            assert_eq!(pixels[i], 255);
        } else {
            assert_eq!(pixels[i], 0);
        }
    }
}

#[test]
fn decode_bit_order_within_nibble() {
    // Bit 3 of a nibble is the leftmost pixel of its run, bit 0 the rightmost.
    let mut raw: Vec<u8> = vec![0x00; 48];
    raw[0] = 0x90; // nibble 0 = 0b1001
    let pixels = decode_logo(&raw);
    assert_eq!(&pixels[0..4], &[255, 0, 0, 255]);
}

#[test]
fn encode_single_pixel() {
    // Pixel (x = 5, y = 2) sits in column group 1, row 2 of the top half:
    // nibble 6, the high nibble of byte 3, bit 2.
    let mut pixels: Vec<u8> = vec![0x00; 384];
    pixels[2 * 48 + 5] = 1;
    let raw = encode_logo(&pixels);
    assert_eq!(raw.len(), 48);
    for j in 0..48 {
        if j == 3 {
            assert_eq!(raw[j], 0x40);
        } else {
            assert_eq!(raw[j], 0x00);
        }
    }
}

#[test]
fn encode_treats_any_nonzero_sample_as_on() {
    let mut dim: Vec<u8> = vec![0x00; 384];
    let mut bright: Vec<u8> = vec![0x00; 384];
    dim[100] = 1;
    bright[100] = 255;
    assert_eq!(encode_logo(&dim), encode_logo(&bright));
}

#[test]
fn round_trip_raw_canonical() {
    let raw: Vec<u8> = vec![
        0xCE, 0xED, 0x66, 0x66, 0xCC, 0x0D, 0x00, 0x0B, 0x03, 0x73, 0x00, 0x83, 0x00, 0x0C, 0x00,
        0x0D, 0x00, 0x08, 0x11, 0x1F, 0x88, 0x89, 0x00, 0x0E, 0xDC, 0xCC, 0x6E, 0xE6, 0xDD, 0xDD,
        0xD9, 0x99, 0xBB, 0xBB, 0x67, 0x63, 0x6E, 0x0E, 0xEC, 0xCC, 0xDD, 0xDC, 0x99, 0x9F, 0xBB,
        0xB9, 0x33, 0x3E,
    ];
    assert_eq!(encode_logo(&decode_logo(&raw)), raw);
}

#[test]
fn round_trip_raw_every_byte_value_pattern() {
    let raw: Vec<u8> = (0..48).map(|j| (j * 5 + 3) as u8).collect();
    assert_eq!(encode_logo(&decode_logo(&raw)), raw);
}

#[test]
fn round_trip_grid() {
    // A 48x8 grid of 0/255 samples survives encode then decode unchanged.
    let grid: Vec<u8> = (0..384).map(|i| if (i * 7 + i / 31) % 3 == 0 { 255 } else { 0 }).collect();
    assert_eq!(decode_logo(&encode_logo(&grid)), grid);
}
