use raytracer::args::{Args, RenderingMode};
use raytracer::cli::rendering_mode::RenderingMode as Mode;

#[test]
fn rendering_is_parallel_by_default() {
    assert_eq!(RenderingMode::default(), RenderingMode::PARALLEL);
}

#[test]
fn arguments_hold_paths_and_mode() {
    let args = Args {
        scene_path: "scene.yaml".to_string(),
        image_output_path: "out.png".to_string(),
        rendering_mode: RenderingMode::SERIAL,
    };
    assert_eq!(args.clone(), args);
    assert_eq!(args.rendering_mode, RenderingMode::SERIAL);
}

#[test]
fn cli_mode_tells_parallel() {
    assert!(Mode::Parallel.is_parallel());
    assert!(!Mode::Serial.is_parallel());
}
