use raytracer::animation::generate_file_name;
use raytracer::convergence::{Convergence, SamplingStep, MAX_SAMPLES, SAMPLES_PER_CHECK};
use raytracer::frame::{assemble_rows, denoised_or_rendered, FrameError, FrameSize};
use raytracer::materials::{plan_shading, MaterialKind, ShadingPlan};
use raytracer::registry::MaterialRegistry;

/// Drives a fresh controller to the end; `close(n)` answers the comparison
/// made at sample count `n`. Returns the samples taken and the comparisons made.
fn run_controller(close: impl Fn(u32) -> bool) -> (u32, u32) {
    let mut c = Convergence::new();
    let mut comparisons = 0;
    loop {
        match c.next_step() {
            SamplingStep::TakeSample => c.record_sample(),
            SamplingStep::CompareAverages => {
                comparisons += 1;
                c.record_comparison(close(c.samples));
            }
            SamplingStep::Finish => return (c.samples, comparisons),
        }
    }
}

#[test]
fn file_name_of_frame_zero() {
    assert_eq!(generate_file_name(0), "output_0.png");
}

#[test]
fn file_name_of_multi_digit_frames() {
    assert_eq!(generate_file_name(7), "output_7.png");
    assert_eq!(generate_file_name(10), "output_10.png");
    assert_eq!(generate_file_name(1203), "output_1203.png");
    assert_eq!(generate_file_name(u32::MAX), "output_4294967295.png");
}

#[test]
fn sampling_stops_at_first_checkpoint_when_close() {
    assert_eq!(run_controller(|_| true), (SAMPLES_PER_CHECK, 1));
    assert_eq!(SAMPLES_PER_CHECK, 20);
}

#[test]
fn sampling_stops_at_cap_when_never_close() {
    let (samples, comparisons) = run_controller(|_| false);
    assert_eq!(samples, MAX_SAMPLES);
    assert_eq!(comparisons, MAX_SAMPLES / SAMPLES_PER_CHECK - 1);
}

#[test]
fn sampling_stops_at_third_checkpoint() {
    assert_eq!(run_controller(|n| n >= 60), (60, 3));
}

#[test]
fn failed_comparison_moves_checkpoint() {
    let mut c = Convergence::new();
    for _ in 0..20 {
        assert_eq!(c.next_step(), SamplingStep::TakeSample);
        c.record_sample();
    }
    assert_eq!(c.next_step(), SamplingStep::CompareAverages);
    c.record_comparison(false);
    assert_eq!(c.checkpoint, 20);
    assert!(!c.converged);
    assert_eq!(c.next_step(), SamplingStep::TakeSample);
}

#[test]
fn frame_size_rejects_zero_dimensions() {
    assert_eq!(FrameSize::new(0, 10), Err(FrameError::ZeroWidth));
    assert_eq!(FrameSize::new(0, 0), Err(FrameError::ZeroWidth));
    assert_eq!(FrameSize::new(10, 0), Err(FrameError::ZeroHeight));
}

#[test]
fn frame_size_rejects_unaddressable_buffer() {
    assert_eq!(FrameSize::new(u32::MAX, u32::MAX), Err(FrameError::TooLarge));
    if usize::BITS == 64 {
        assert_eq!(FrameSize::new(u32::MAX, 1), Ok(FrameSize { width: u32::MAX, height: 1 }));
    }
    assert_eq!(FrameSize::new(1920, 1080), Ok(FrameSize { width: 1920, height: 1080 }));
}

#[test]
fn frame_size_lengths() {
    let size = FrameSize::new(4, 3).unwrap();
    assert_eq!(size.row_len(), 12);
    assert_eq!(size.buffer_len(), 36);
}

#[test]
fn rows_assemble_in_row_major_order() {
    let size = FrameSize::new(2, 3).unwrap();
    let rows: Vec<Vec<u8>> = (0..3u8).map(|y| (0..6u8).map(|i| y * 10 + i).collect()).collect();
    let out = assemble_rows(size, &rows);
    assert_eq!(
        out,
        vec![0, 1, 2, 3, 4, 5, 10, 11, 12, 13, 14, 15, 20, 21, 22, 23, 24, 25]
    );
    // channel c of pixel (x, y) is at (y * width + x) * 3 + c
    assert_eq!(out[(2 * 2 + 1) * 3 + 2], rows[2][1 * 3 + 2]);
}

#[test]
fn single_pixel_frame_assembles() {
    let size = FrameSize::new(1, 1).unwrap();
    let rows = vec![vec![0.25f32, 0.5, 0.75]];
    assert_eq!(assemble_rows(size, &rows), vec![0.25f32, 0.5, 0.75]);
}

#[test]
fn denoised_buffer_replaces_color() {
    let size = FrameSize::new(1, 2).unwrap();
    let color = vec![1.0f32; 6];
    let denoised = vec![0.5f32; 6];
    assert_eq!(denoised_or_rendered(size, color, Some(denoised.clone())), denoised);
}

#[test]
fn failed_denoise_keeps_color() {
    let size = FrameSize::new(1, 2).unwrap();
    let color = vec![1.0f32; 6];
    assert_eq!(denoised_or_rendered(size, color.clone(), None), color);
    assert_eq!(denoised_or_rendered(size, color.clone(), Some(vec![0.5f32; 3])), color);
}

#[test]
fn only_diffuse_and_emission_receive_direct_light() {
    assert!(plan_shading(MaterialKind::Diffuse, 3).direct);
    assert!(plan_shading(MaterialKind::Emission, 3).direct);
    assert!(!plan_shading(MaterialKind::Metal, 3).direct);
    assert!(!plan_shading(MaterialKind::Glass, 3).direct);
    assert!(!plan_shading(MaterialKind::Portal, 3).direct);
}

#[test]
fn scattering_spends_one_bounce() {
    let plan = plan_shading(MaterialKind::Metal, 5);
    assert!(plan.scatter);
    assert_eq!(plan.next_depth, 4);
    assert!(!plan.emission);
}

#[test]
fn depth_zero_keeps_only_emission() {
    let plan = plan_shading(MaterialKind::Emission, 0);
    assert!(!plan.scatter);
    assert!(plan.emission);
    assert!(plan.direct);
    let plan = plan_shading(MaterialKind::Diffuse, 0);
    assert!(!plan.scatter);
    assert!(!plan.emission);
}

#[test]
fn diffuse_bounce_plan_is_exact() {
    assert_eq!(
        plan_shading(MaterialKind::Diffuse, 1),
        ShadingPlan { direct: true, scatter: true, next_depth: 0, emission: false }
    );
    assert_eq!(
        plan_shading(MaterialKind::Glass, 1),
        ShadingPlan { direct: false, scatter: true, next_depth: 0, emission: false }
    );
}

#[test]
fn missing_material_falls_back_to_base() {
    let mut reg = MaterialRegistry::new(0u32);
    reg.add_material(String::from("diffuse_white"), 7u32);
    assert_eq!(*reg.get_material(&String::from("diffuse_white")), 7);
    assert_eq!(*reg.get_material(&String::from("no_such_material")), 0);
}

#[test]
fn registering_a_name_again_replaces_it() {
    let mut reg = MaterialRegistry::new(0u32);
    reg.add_material(String::from("metal"), 1u32);
    reg.add_material(String::from("glass"), 2u32);
    reg.add_material(String::from("metal"), 3u32);
    assert_eq!(*reg.get_material(&String::from("metal")), 3);
    assert_eq!(*reg.get_material(&String::from("glass")), 2);
    assert_eq!(*reg.get_material(&String::from("")), 0);
}
