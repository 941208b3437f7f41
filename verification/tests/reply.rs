use fractal_wire::assembler::{assemble, AssemblyError};
use fractal_wire::fragment_task::{create_identification, RangeManager, RangeManagerTrait};
use fractal_wire::message::{
    FractalDescriptor, FragmentResult, FragmentTask, Mandelbrot, PixelData, PixelIntensity, Point,
    Range, Resolution, U8Data,
};

fn small_task(nx: u16, ny: u16) -> FragmentTask {
    FragmentTask {
        id: U8Data { offset: 0, count: 16 },
        max_iteration: 64,
        resolution: Resolution { nx, ny },
        range: Range {
            min: Point { x: (-2.0f64).to_bits(), y: (-2.0f64).to_bits() },
            max: Point { x: 1.0f64.to_bits(), y: 1.0f64.to_bits() },
        },
        fractal: FractalDescriptor::Mandelbrot(Mandelbrot {}),
    }
}

fn ramp(n: usize) -> Vec<PixelIntensity> {
    (0..n)
        .map(|k| PixelIntensity {
            zn: (k as f32 / 7.0).to_bits(),
            count: (k as f32 / n as f32).to_bits(),
        })
        .collect()
}

#[test]
fn reply_echoes_the_task_and_puts_the_id_in_front() {
    let task = small_task(2, 2);
    let id = create_identification();
    let pixels = ramp(4);
    let (result, payload) = task.calculate_fractal(id.clone(), pixels.clone());
    assert_eq!(
        result,
        FragmentResult {
            id: U8Data { offset: 0, count: 16 },
            resolution: task.resolution,
            range: task.range,
            pixels: PixelData { offset: 16, count: 4 },
        }
    );
    assert_eq!(payload.len(), 16 + 4 * 8);
    assert_eq!(&payload[..16], &id[..]);
    assert_eq!(&payload[16..], &task.transform_vec_pixel_intensity_to_vec_u8(pixels)[..]);
}

#[test]
fn reply_of_a_full_tile() {
    let task = small_task(160, 120);
    let (result, payload) = task.calculate_fractal(create_identification(), ramp(19_200));
    assert_eq!(result.pixels, PixelData { offset: 16, count: 19_200 });
    assert_eq!(payload.len(), 16 + 153_600);
}

#[test]
fn reply_follows_the_tasks_id_count() {
    let mut task = small_task(1, 1);
    task.id = U8Data { offset: 7, count: 3 };
    let (result, payload) = task.calculate_fractal(vec![9, 8, 7], ramp(1));
    assert_eq!(result.id, U8Data { offset: 0, count: 3 });
    assert_eq!(result.pixels, PixelData { offset: 3, count: 1 });
    assert_eq!(&payload[..3], &[9, 8, 7]);
    assert_eq!(payload.len(), 11);
}

#[test]
fn reply_without_pixels() {
    let task = small_task(3, 3);
    let (result, payload) = task.calculate_fractal(create_identification(), Vec::new());
    assert_eq!(result.pixels, PixelData { offset: 16, count: 0 });
    assert_eq!(payload, create_identification());
}

#[test]
fn pixel_data_defaults_to_the_start() {
    assert_eq!(PixelData::create_pixel_data(9, Some(16)), PixelData { offset: 16, count: 9 });
    assert_eq!(PixelData::create_pixel_data(9, None), PixelData { offset: 0, count: 9 });
}

#[test]
fn update_offset_moves_only_the_stream() {
    let task = small_task(2, 3);
    let (mut result, _) = task.calculate_fractal(create_identification(), ramp(6));
    let before = result;
    let moved = result.update_offset(40);
    assert_eq!(result, before);
    assert_eq!(moved.pixels, PixelData { offset: 40, count: 6 });
    assert_eq!(moved.id, before.id);
    assert_eq!(moved.resolution, before.resolution);
    assert_eq!(moved.range, before.range);
}

#[test]
fn a_reply_is_taken_and_read_back() {
    let task = RangeManager::new().get_current_range(5);
    let pixels = ramp(300 * 300);
    let id = create_identification();
    let (result, payload) = task.calculate_fractal(id.clone(), pixels.clone());
    assert_eq!(&payload[..16], &id[..]);
    assert_eq!(assemble(&result, &payload, &id), Ok(pixels));
}

#[test]
fn the_record_says_where_things_lie() {
    let pixels = ramp(2);
    let stream = small_task(2, 1).transform_vec_pixel_intensity_to_vec_u8(pixels.clone());
    let mut payload = vec![0xee; 3];
    payload.extend_from_slice(&stream);
    payload.extend_from_slice(&[1, 2, 3, 4]);
    payload.push(0xdd);
    let result = FragmentResult {
        id: U8Data { offset: 19, count: 4 },
        resolution: Resolution { nx: 2, ny: 1 },
        range: small_task(2, 1).range,
        pixels: PixelData { offset: 3, count: 2 },
    };
    assert_eq!(assemble(&result, &payload, &[1, 2, 3, 4]), Ok(pixels));
}

#[test]
fn wrong_identification_is_a_mismatch() {
    let task = small_task(2, 2);
    let id = create_identification();
    let (result, mut payload) = task.calculate_fractal(id.clone(), ramp(4));
    payload[15] ^= 1;
    assert_eq!(assemble(&result, &payload, &id), Err(AssemblyError::IdentificationMismatch));
    payload[15] ^= 1;
    assert!(assemble(&result, &payload, &id).is_ok());
    assert_eq!(assemble(&result, &payload, &id[..15]), Err(AssemblyError::IdentificationMismatch));
    let mut shorter = result;
    shorter.id.count = 15;
    assert_eq!(assemble(&shorter, &payload, &id), Err(AssemblyError::IdentificationMismatch));
}

#[test]
fn short_payload_is_truncated() {
    let task = small_task(2, 2);
    let id = create_identification();
    let (result, payload) = task.calculate_fractal(id.clone(), ramp(4));
    assert_eq!(assemble(&result, &payload[..15], &id), Err(AssemblyError::Truncated));
    assert_eq!(assemble(&result, &payload[..16], &id), Err(AssemblyError::Truncated));
    assert_eq!(
        assemble(&result, &payload[..payload.len() - 1], &id),
        Err(AssemblyError::Truncated)
    );
    let mut far = result;
    far.id.offset = u32::MAX;
    assert_eq!(assemble(&far, &payload, &id), Err(AssemblyError::Truncated));
}

#[test]
fn wrong_pixel_count_is_a_mismatch() {
    let task = small_task(2, 2);
    let id = create_identification();
    let (result, payload) = task.calculate_fractal(id.clone(), ramp(3));
    assert_eq!(result.pixels.count, 3);
    assert_eq!(assemble(&result, &payload, &id), Err(AssemblyError::PixelCountMismatch));
    let (result, payload) = task.calculate_fractal(id.clone(), ramp(5));
    assert_eq!(assemble(&result, &payload, &id), Err(AssemblyError::PixelCountMismatch));
    // The identification is looked at before the count.
    assert_eq!(assemble(&result, &payload, &[0; 16]), Err(AssemblyError::IdentificationMismatch));
}

#[test]
fn pixel_count_of_a_resolution() {
    assert_eq!(Resolution { nx: 300, ny: 300 }.pixel_count(), 90_000);
    assert_eq!(Resolution { nx: 160, ny: 120 }.pixel_count(), 19_200);
    assert_eq!(Resolution { nx: u16::MAX, ny: u16::MAX }.pixel_count(), 4_294_836_225);
    assert_eq!(Resolution { nx: 0, ny: 9 }.pixel_count(), 0);
}
