//! The engine held against a bit-by-bit model of a file.

use headroom::mp3::{apply_gain, parse_header, skip_id3v2};

/// A small deterministic generator.
struct Lcg(u64);

impl Lcg {
    fn next(&mut self) -> u32 {
        self.0 = self.0.wrapping_mul(6364136223846793005).wrapping_add(1442695040888963407);
        (self.0 >> 33) as u32
    }

    fn below(&mut self, bound: u32) -> u32 {
        self.next() % bound
    }
}

fn get_bit(data: &[u8], index: usize) -> u32 {
    ((data[index / 8] >> (7 - index % 8)) & 1) as u32
}

fn set_bit(data: &mut [u8], index: usize, bit: u32) {
    let mask = 0x80u8 >> (index % 8);
    if bit != 0 {
        data[index / 8] |= mask;
    } else {
        data[index / 8] &= !mask;
    }
}

/// The engine, told bit by bit: returns the frames found.
fn model(data: &mut [u8], steps: i64) -> usize {
    if steps == 0 {
        return 0;
    }
    let mut pos = if data.len() >= 10 && &data[..3] == b"ID3" {
        10 + data[6..10].iter().fold(0usize, |size, b| size * 128 + (b % 128) as usize)
    } else {
        0
    };
    let mut frames = 0;
    while pos + 4 <= data.len() {
        let b = &data[pos..pos + 4];
        let version = (b[1] >> 3) & 3;
        let bitrate_index = (b[2] >> 4) as usize;
        let rate_index = ((b[2] >> 2) & 3) as usize;
        let is_header = b[0] == 0xFF
            && b[1] >> 5 == 7
            && version != 1
            && (b[1] >> 1) & 3 == 1
            && (1..=14).contains(&bitrate_index)
            && rate_index != 3;
        if !is_header {
            pos += 1;
            continue;
        }
        let mpeg1 = version == 3;
        let kbps = if mpeg1 {
            [0, 32, 40, 48, 56, 64, 80, 96, 112, 128, 160, 192, 224, 256, 320][bitrate_index]
        } else {
            [0, 8, 16, 24, 32, 40, 48, 56, 64, 80, 96, 112, 128, 144, 160][bitrate_index]
        };
        let rate = match version {
            3 => [44100, 48000, 32000][rate_index],
            2 => [22050, 24000, 16000][rate_index],
            _ => [11025, 12000, 8000][rate_index],
        };
        let samples = if mpeg1 { 1152 } else { 576 };
        let size = samples * kbps * 125 / rate + ((b[2] >> 1) & 1) as usize;
        let next = pos + size;
        let confirmed = if next + 2 <= data.len() {
            data[next] == 0xFF && data[next + 1] >> 5 == 7
        } else {
            next <= data.len()
        };
        if !confirmed {
            pos += 1;
            continue;
        }
        let mono = b[3] >> 6 == 3;
        let channels = if mono { 1 } else { 2 };
        let granules = if mpeg1 { 2 } else { 1 };
        let side_info = pos + if b[1] & 1 == 0 { 6 } else { 4 };
        let before = match (mpeg1, mono) {
            (true, true) => 18,
            (true, false) => 20,
            (false, true) => 9,
            (false, false) => 10,
        };
        let width = if mpeg1 { 59 } else { 63 };
        for record in 0..granules * channels {
            let first_bit = side_info * 8 + before + record * width + 21;
            let mut gain = 0i64;
            for k in 0..8 {
                gain = gain * 2 + get_bit(data, first_bit + k) as i64;
            }
            let moved = (gain + steps).clamp(0, 255) as u32;
            for k in 0..8 {
                set_bit(data, first_bit + k, (moved >> (7 - k)) & 1);
            }
        }
        frames += 1;
        pos = next;
    }
    frames
}

const HEADERS: [[u8; 4]; 8] = [
    [0xFF, 0xFB, 0x90, 0x00],
    [0xFF, 0xFA, 0x92, 0x40],
    [0xFF, 0xFB, 0x14, 0xC0],
    [0xFF, 0xF3, 0x90, 0x00],
    [0xFF, 0xF2, 0x14, 0xC0],
    [0xFF, 0xE3, 0x18, 0x80],
    [0xFF, 0xE3, 0xEA, 0xC0],
    [0xFF, 0xFB, 0xE4, 0x40],
];

fn random_file(rng: &mut Lcg) -> Vec<u8> {
    let mut data = Vec::new();
    if rng.below(3) == 0 {
        let size = rng.below(100) as u8;
        data.extend([b'I', b'D', b'3', 0x04, 0x00, 0x00, 0x00, 0x00, 0x00, size]);
        for _ in 0..size {
            data.push(rng.next() as u8);
        }
    }
    for _ in 0..rng.below(6) {
        match rng.below(4) {
            0 => {
                // Garbage, sprinkled with sync bytes and whole headers.
                for _ in 0..rng.below(40) {
                    match rng.below(8) {
                        0 => data.push(0xFF),
                        1 => data.extend(HEADERS[rng.below(8) as usize]),
                        _ => data.push(rng.next() as u8),
                    }
                }
            }
            _ => {
                let header = HEADERS[rng.below(8) as usize];
                let size = parse_header(&header).unwrap().frame_size;
                let start = data.len();
                for _ in 0..size {
                    data.push(rng.next() as u8);
                }
                data[start..start + 4].copy_from_slice(&header);
            }
        }
    }
    if rng.below(4) == 0 {
        let keep = data.len() - (rng.below(30) as usize).min(data.len());
        data.truncate(keep);
    }
    data
}

#[test]
fn engine_agrees_with_the_bit_model() {
    let mut rng = Lcg(0x5EED);
    let mut frames_seen = 0;
    for round in 0..400 {
        let file = random_file(&mut rng);
        let steps = match round % 5 {
            0 => 1,
            1 => -1,
            2 => rng.below(40) as i32 - 20,
            3 => rng.below(600) as i32 - 300,
            _ => 0,
        };
        let mut by_engine = file.clone();
        let mut by_model = file.clone();
        let frames = apply_gain(&mut by_engine, steps);
        let expected = model(&mut by_model, steps as i64);
        assert_eq!(frames, expected, "frames found in round {}", round);
        assert_eq!(by_engine, by_model, "file after round {}", round);
        assert_eq!(by_engine.len(), file.len());
        frames_seen += frames;
    }
    assert!(frames_seen > 300);
}

#[test]
fn tag_skip_agrees_with_the_bit_model() {
    let mut rng = Lcg(7);
    for _ in 0..2000 {
        let mut data: Vec<u8> = (0..rng.below(14)).map(|_| rng.next() as u8).collect();
        if data.len() >= 3 && rng.below(2) == 0 {
            data[..3].copy_from_slice(b"ID3");
        }
        let expected = if data.len() >= 10 && &data[..3] == b"ID3" {
            10 + data[6..10].iter().fold(0usize, |size, b| size * 128 + (b % 128) as usize)
        } else {
            0
        };
        assert_eq!(skip_id3v2(&data), expected);
    }
}
