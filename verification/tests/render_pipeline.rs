use vector_pipeline::cmd::GlCmd;
use vector_pipeline::device::{Device, ObjKind};
use vector_pipeline::frame::OffscreenFrame;
use vector_pipeline::geometry::{GeometryBuffer, VertexLayout};
use vector_pipeline::pipeline::{CompositingPipeline, DrawPass, Overlay};
use vector_pipeline::raster::{Pixel, StencilMode};
use vector_pipeline::shader::{ShaderProgram, UniformValue};
use vector_pipeline::{RenderError, Rgb, ShaderStage};

const RED: Rgb = Rgb { r: 255, g: 0, b: 0 };
const GREEN: Rgb = Rgb { r: 0, g: 255, b: 0 };
const BG: Rgb = Rgb { r: 51, g: 38, b: 102 };

fn full_coverage(w: u32, h: u32) -> Vec<Pixel> {
    let mut cov = Vec::new();
    for y in 0..h {
        for x in 0..w {
            cov.push(Pixel { x, y });
        }
    }
    cov
}

#[test]
fn create_then_destroy_leaves_no_objects() {
    let mut dev = Device::new(64, 64);
    assert_eq!(dev.live_count(), 0);
    let (frame, _cmds) = OffscreenFrame::create(&mut dev, 64, 64, 8, true).unwrap();
    assert_eq!(dev.live_count(), 5);
    frame.destroy(&mut dev);
    assert_eq!(dev.live_count(), 0);
}

#[test]
fn create_then_destroy_without_stencil() {
    let mut dev = Device::new(16, 16);
    let (frame, _cmds) = OffscreenFrame::create(&mut dev, 16, 16, 4, false).unwrap();
    assert_eq!(dev.live_count(), 4);
    frame.destroy(&mut dev);
    assert_eq!(dev.live_count(), 0);
}

#[test]
fn create_zero_size_is_incomplete() {
    let mut dev = Device::new(64, 64);
    match OffscreenFrame::create(&mut dev, 0, 64, 8, true) {
        Err(RenderError::FramebufferIncomplete) => {}
        _ => panic!("a zero-width frame must be incomplete"),
    }
    assert_eq!(dev.live_count(), 0);
}

#[test]
fn create_zero_samples_is_incomplete() {
    let mut dev = Device::new(64, 64);
    match OffscreenFrame::create(&mut dev, 64, 64, 0, true) {
        Err(RenderError::FramebufferIncomplete) => {}
        _ => panic!("a zero-sample frame must be incomplete"),
    }
}

#[test]
fn resolve_of_full_draw_is_uniform() {
    let mut dev = Device::new(8, 8);
    let (mut frame, _) = OffscreenFrame::create(&mut dev, 8, 8, 8, false).unwrap();
    frame.clear(BG);
    frame.draw(&full_coverage(8, 8), RED, StencilMode::Off);
    frame.resolve(8, 8);
    for p in &frame.resolve_color {
        assert_eq!(*p, RED);
    }
}

#[test]
fn resolve_leaves_pixels_outside_rect() {
    let mut dev = Device::new(4, 4);
    let (mut frame, _) = OffscreenFrame::create(&mut dev, 4, 4, 2, false).unwrap();
    frame.clear(BG);
    frame.draw(&full_coverage(4, 4), RED, StencilMode::Off);
    // Only the left 2x4 rectangle is resolved; the rest keeps the initial
    // black resolve contents.
    frame.resolve(2, 4);
    for y in 0..4u32 {
        for x in 0..4u32 {
            let got = frame.resolve_color[(y * 4 + x) as usize];
            if x < 2 {
                assert_eq!(got, RED);
            } else {
                assert_eq!(got, Rgb { r: 0, g: 0, b: 0 });
            }
        }
    }
}

#[test]
fn stencil_clipping_masks_overlay_to_silhouette() {
    let mut dev = Device::new(4, 4);
    let (mut frame, _) = OffscreenFrame::create(&mut dev, 4, 4, 8, true).unwrap();
    frame.clear(BG);
    let silhouette = vec![Pixel { x: 1, y: 1 }, Pixel { x: 2, y: 2 }, Pixel { x: 3, y: 0 }];
    frame.draw(&silhouette, RED, StencilMode::WriteAlways { reference: 1 });
    frame.draw(&full_coverage(4, 4), GREEN, StencilMode::TestEqual { reference: 1 });
    for y in 0..4u32 {
        for x in 0..4u32 {
            let got = frame.ms_color[(y * 4 + x) as usize];
            let in_s = silhouette.iter().any(|p| p.x == x && p.y == y);
            if in_s {
                assert_eq!(got, GREEN);
            } else {
                assert_eq!(got, BG);
            }
        }
    }
}

#[test]
fn out_of_bounds_coverage_is_clipped() {
    let mut dev = Device::new(2, 2);
    let (mut frame, _) = OffscreenFrame::create(&mut dev, 2, 2, 1, false).unwrap();
    frame.clear(BG);
    frame.draw(&vec![Pixel { x: 7, y: 7 }, Pixel { x: 1, y: 0 }], RED, StencilMode::Off);
    assert_eq!(frame.ms_color[0], BG);
    assert_eq!(frame.ms_color[1], RED);
    assert_eq!(frame.ms_color[2], BG);
    assert_eq!(frame.ms_color[3], BG);
}

const PLAIN_VS: &[u8] = b"void main() { x; }";
const PLAIN_FS: &[u8] = b"void main() { y; }";

#[test]
fn vertex_shader_syntax_error_propagates() {
    let mut dev = Device::new(8, 8);
    match ShaderProgram::build(&mut dev, b"void main() { oops;", PLAIN_FS) {
        Err(RenderError::ShaderCompile { stage, log }) => {
            assert_eq!(stage, ShaderStage::Vertex);
            assert!(!log.is_empty());
        }
        _ => panic!("a vertex stage with unbalanced braces must fail to compile"),
    }
    // No program handle came back and nothing stayed allocated.
    assert_eq!(dev.live_count(), 0);
}

#[test]
fn fragment_shader_syntax_error_propagates() {
    let mut dev = Device::new(8, 8);
    match ShaderProgram::build(&mut dev, PLAIN_VS, b"void main() }{") {
        Err(RenderError::ShaderCompile { stage, .. }) => {
            assert_eq!(stage, ShaderStage::Fragment);
        }
        _ => panic!("a fragment stage with unbalanced braces must fail to compile"),
    }
    assert_eq!(dev.live_count(), 0);
}

#[test]
fn conflicting_uniforms_fail_to_link() {
    let mut dev = Device::new(8, 8);
    match ShaderProgram::build(
        &mut dev,
        b"uniform mat2 mat; void main() {}",
        b"uniform vec4 mat; void main() {}",
    ) {
        Err(RenderError::ShaderLink { log }) => assert!(!log.is_empty()),
        _ => panic!("conflicting uniform declarations must fail to link"),
    }
    assert_eq!(dev.live_count(), 0);
}

#[test]
fn successful_build_keeps_only_the_program() {
    let mut dev = Device::new(8, 8);
    let (program, cmds) = ShaderProgram::build(
        &mut dev,
        b"uniform mat2 mat; uniform vec2 transform; void main() {}",
        b"uniform sampler2D image; void main() {}",
    )
    .unwrap();
    assert_eq!(dev.live_count(), 1);
    assert_eq!(program.uniform_names.len(), 3);
    assert_eq!(program.uniform_names[0], b"mat".to_vec());
    assert_eq!(program.uniform_names[1], b"transform".to_vec());
    assert_eq!(program.uniform_names[2], b"image".to_vec());
    // The per-stage shader objects were created and deleted again.
    assert!(cmds.iter().any(|c| matches!(c, GlCmd::DeleteShader { .. })));
}

#[test]
fn uniform_strictness_rejects_unknown_names() {
    let mut dev = Device::new(8, 8);
    let (program, _) = ShaderProgram::build(
        &mut dev,
        b"uniform mat2 mat; void main() {}",
        PLAIN_FS,
    )
    .unwrap();
    assert_eq!(program.locate(b"mat").unwrap(), 0);
    match program.locate(b"transforn") {
        Err(RenderError::UniformNotFound { name }) => {
            assert_eq!(name, b"transforn".to_vec());
        }
        _ => panic!("an absent uniform name must be a hard error"),
    }
}

#[test]
fn setting_a_uniform_records_the_binding() {
    let mut dev = Device::new(8, 8);
    let (mut program, _) = ShaderProgram::build(
        &mut dev,
        b"uniform mat2 mat; uniform vec2 transform; void main() {}",
        PLAIN_FS,
    )
    .unwrap();
    let cmd = program.set_mat_scale(b"mat", 500, 500).unwrap();
    match cmd {
        GlCmd::SetUniformMat2Scale { program: pid, location, width, height } => {
            assert_eq!(pid, program.id);
            assert_eq!(location, 0);
            assert_eq!(width, 500);
            assert_eq!(height, 500);
        }
        _ => panic!("expected a scale uniform command"),
    }
    assert_eq!(
        program.uniform_values[0],
        Some(UniformValue::Mat2Scale { width: 500, height: 500 })
    );
    assert!(program.set_vec2(b"transform", 0, -50).is_ok());
    assert!(program.set_sampler(b"image", 0).is_err());
}

#[test]
fn packed_layout_strides_and_offsets() {
    let layout = VertexLayout::packed(&vec![2, 2]);
    assert_eq!(layout.stride, 16);
    assert_eq!(layout.attributes.len(), 2);
    assert_eq!(layout.attributes[0].slot, 0);
    assert_eq!(layout.attributes[0].offset, 0);
    assert_eq!(layout.attributes[1].slot, 1);
    assert_eq!(layout.attributes[1].offset, 8);

    let single = VertexLayout::packed(&vec![2]);
    assert_eq!(single.stride, 8);
}

#[test]
fn zero_length_geometry_is_permitted() {
    let mut dev = Device::new(8, 8);
    let layout = VertexLayout::packed(&vec![2]);
    let (geometry, cmds) = GeometryBuffer::upload(&mut dev, 0, layout);
    assert_eq!(geometry.vertex_count, 0);
    assert_eq!(dev.live_count(), 2);
    assert!(cmds
        .iter()
        .any(|c| matches!(c, GlCmd::UploadVertices { vertex_count: 0, .. })));
}

fn small_pipeline(dev: &mut Device, w: u32, h: u32, with_overlay: bool) -> CompositingPipeline {
    let (mut main_program, _) = ShaderProgram::build(
        dev,
        b"uniform mat2 mat; uniform vec2 transform; void main() {}",
        b"void main() { color; }",
    )
    .unwrap();
    let (post_program, _) = ShaderProgram::build(
        dev,
        b"void main() { pos; }",
        b"uniform sampler2D image; void main() {}",
    )
    .unwrap();
    main_program.set_mat_scale(b"mat", w, h).unwrap();
    main_program.set_vec2(b"transform", 0, 0).unwrap();
    let layout = VertexLayout::packed(&vec![2]);
    let (geometry, _) = GeometryBuffer::upload(dev, 4, layout);
    let overlay = if with_overlay {
        let (mut image_program, _) = ShaderProgram::build(
            dev,
            b"uniform mat2 mat; uniform vec2 transform; void main() {}",
            b"uniform sampler2D image; void main() {}",
        )
        .unwrap();
        image_program.set_mat_scale(b"mat", w, h).unwrap();
        let quad_layout = VertexLayout::packed(&vec![2, 2]);
        let (quad, _) = GeometryBuffer::upload(dev, 4, quad_layout);
        Some(Overlay {
            program: image_program,
            pass: DrawPass { geometry: quad, color: GREEN, coverage: full_coverage(w, h) },
            texture: 999,
        })
    } else {
        None
    };
    let (frame, _) = OffscreenFrame::create(dev, w, h, 8, with_overlay).unwrap();
    let post_vao = dev.new_object(ObjKind::VertexArray);
    CompositingPipeline {
        main_program,
        post_program,
        main_pass: DrawPass {
            geometry,
            color: RED,
            coverage: vec![Pixel { x: 1, y: 1 }, Pixel { x: 2, y: 1 }],
        },
        overlay,
        frame,
        post_vao,
        width: w,
        height: h,
        clear_color: BG,
    }
}

#[test]
fn resize_twice_equals_resize_once() {
    let mut dev = Device::new(16, 16);
    let mut pipeline = small_pipeline(&mut dev, 16, 16, false);

    pipeline.resize(&mut dev, 300, 200).unwrap();
    let once = (
        pipeline.width,
        pipeline.height,
        pipeline.frame.width,
        pipeline.frame.height,
        pipeline.main_program.uniform_values.clone(),
    );
    pipeline.resize(&mut dev, 300, 200).unwrap();
    let twice = (
        pipeline.width,
        pipeline.height,
        pipeline.frame.width,
        pipeline.frame.height,
        pipeline.main_program.uniform_values.clone(),
    );
    assert_eq!(once, twice);
    assert_eq!(
        pipeline.main_program.uniform_values[0],
        Some(UniformValue::Mat2Scale { width: 300, height: 200 })
    );
}

#[test]
fn resize_to_zero_fails_and_keeps_the_frame() {
    let mut dev = Device::new(16, 16);
    let mut pipeline = small_pipeline(&mut dev, 16, 16, false);
    let live_before = dev.live_count();
    match pipeline.resize(&mut dev, 0, 0) {
        Err(RenderError::ResizeFailed) => {}
        _ => panic!("a zero-size resize must fail"),
    }
    assert_eq!(pipeline.frame.width, 16);
    assert_eq!(pipeline.frame.height, 16);
    assert_eq!(dev.live_count(), live_before);
}

#[test]
fn resize_replaces_exactly_the_frame_objects() {
    let mut dev = Device::new(16, 16);
    let mut pipeline = small_pipeline(&mut dev, 16, 16, false);
    let live_before = dev.live_count();
    pipeline.resize(&mut dev, 32, 32).unwrap();
    assert_eq!(dev.live_count(), live_before);
    assert_eq!(pipeline.frame.width, 32);
}

#[test]
fn lost_surface_fails_presentation() {
    let mut dev = Device::new(16, 16);
    let mut pipeline = small_pipeline(&mut dev, 16, 16, false);
    dev.mark_surface_lost();
    match pipeline.render(&mut dev) {
        Err(RenderError::Presentation) => {}
        _ => panic!("presentation on a lost surface must fail"),
    }
}

#[test]
fn render_with_overlay_clips_to_silhouette() {
    let mut dev = Device::new(8, 8);
    let mut pipeline = small_pipeline(&mut dev, 8, 8, true);
    pipeline.render(&mut dev).unwrap();
    // The overlay covers everything but lands only on the main silhouette.
    for y in 0..8u32 {
        for x in 0..8u32 {
            let got = pipeline.frame.ms_color[(y * 8 + x) as usize];
            let in_s = (x == 1 || x == 2) && y == 1;
            if in_s {
                assert_eq!(got, GREEN);
            } else {
                assert_eq!(got, BG);
            }
        }
    }
}

#[test]
fn error_descriptions_are_stable() {
    assert_eq!(
        RenderError::FramebufferIncomplete.describe(),
        "framebuffer is not complete"
    );
    assert_eq!(
        RenderError::ResizeFailed.describe(),
        "offscreen frame could not be resized"
    );
    assert_eq!(RenderError::Presentation.describe(), "the visible surface was lost");
}

#[test]
fn end_to_end_ellipse_frame() {
    // Pipeline at 500x500 with 8 samples and a 40x40 ellipse outline of at
    // least 16 segments, no overlay: one frame renders without error,
    // produces a non-empty resolve texture, and presentation succeeds.
    let mut dev = Device::new(500, 500);
    let (mut main_program, _) = ShaderProgram::build(
        &mut dev,
        b"uniform mat2 mat; uniform vec2 transform; void main() { fan; }",
        b"void main() { flat; }",
    )
    .unwrap();
    let (post_program, _) = ShaderProgram::build(
        &mut dev,
        b"void main() { quad; }",
        b"uniform sampler2D image; void main() { sample; }",
    )
    .unwrap();
    main_program.set_mat_scale(b"mat", 500, 500).unwrap();
    main_program.set_vec2(b"transform", 0, 0).unwrap();

    // A 40x40 ellipse outline: 21 segments, like max(16, ceil(2*pi*20/6)).
    let segments = 21u32;
    assert!(segments >= 16);
    let mut coverage = Vec::new();
    for k in 0..segments {
        let angle = (k as f32) * 2.0 * std::f32::consts::PI / (segments as f32);
        let x = (250.0 + 20.0 * angle.cos()).round() as u32;
        let y = (250.0 + 20.0 * angle.sin()).round() as u32;
        coverage.push(Pixel { x, y });
    }
    let layout = VertexLayout::packed(&vec![2]);
    let (geometry, _) = GeometryBuffer::upload(&mut dev, segments, layout);
    let (frame, _) = OffscreenFrame::create(&mut dev, 500, 500, 8, false).unwrap();
    let post_vao = dev.new_object(ObjKind::VertexArray);

    let mut pipeline = CompositingPipeline {
        main_program,
        post_program,
        main_pass: DrawPass { geometry, color: RED, coverage },
        overlay: None,
        frame,
        post_vao,
        width: 500,
        height: 500,
        clear_color: BG,
    };

    let cmds = pipeline.render(&mut dev).unwrap();
    assert!(!cmds.is_empty());
    assert!(cmds.iter().any(|c| matches!(c, GlCmd::Present)));

    // The resolve texture is non-empty: the outline pixels carry the
    // outline color over the background.
    let on_outline = pipeline
        .frame
        .resolve_color
        .iter()
        .filter(|p| **p == RED)
        .count();
    assert!(on_outline >= 16);
    assert_eq!(pipeline.frame.resolve_color[(250 * 500 + 270) as usize], RED);
    assert_eq!(pipeline.frame.resolve_color[0], BG);

    // Presentation copied the resolved image to the visible surface.
    assert_eq!(dev.surface[(250 * 500 + 270) as usize], RED);
    assert_eq!(dev.surface.len(), 500 * 500);
}

#[test]
fn program_destroy_releases_the_object() {
    let mut dev = Device::new(8, 8);
    let (program, _) = ShaderProgram::build(&mut dev, PLAIN_VS, PLAIN_FS).unwrap();
    assert_eq!(dev.live_count(), 1);
    let cmds = program.destroy(&mut dev);
    assert_eq!(dev.live_count(), 0);
    assert!(matches!(cmds[0], GlCmd::DeleteProgram { .. }));
}

#[test]
fn resize_keeps_unrelated_uniform_bindings() {
    let mut dev = Device::new(16, 16);
    let mut pipeline = small_pipeline(&mut dev, 16, 16, false);
    pipeline.main_program.set_vec2(b"transform", 3, -7).unwrap();
    pipeline.resize(&mut dev, 64, 64).unwrap();
    assert_eq!(
        pipeline.main_program.uniform_values[1],
        Some(UniformValue::Vec2 { x: 3, y: -7 })
    );
    assert_eq!(
        pipeline.main_program.uniform_values[0],
        Some(UniformValue::Mat2Scale { width: 64, height: 64 })
    );
}
