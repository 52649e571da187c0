use style_engine::blend::blend;
use style_engine::cache::LoadStep;
use style_engine::codec::{denormalize, postprocess, preprocess};
use style_engine::engine::StyleTransferEngine;
use style_engine::error::EngineError;
use style_engine::fixed::{clamp_unit, cosine_of_multiple, div_floor, sine_milli, sine_of_multiple, ONE};
use style_engine::layout::{to_interleaved, to_planar};
use style_engine::registry::{find_style, registry, Style};
use style_engine::simulate::{simulate, style_element};

const LEN: usize = 256 * 256 * 3;

fn all_styles() -> Vec<Style> {
    vec![
        Style::VanGoghStarryNight,
        Style::PicassoCubist,
        Style::CyberpunkNeon,
        Style::MonetWaterLilies,
        Style::AnimeStudioGhibli,
    ]
}

fn gradient_tensor() -> Vec<i32> {
    (0..LEN).map(|i| ((i * 37) % 1_000_001) as i32).collect()
}

fn loaded_engine(name: &str, compiled: bool, bytes: usize) -> StyleTransferEngine {
    let mut engine = StyleTransferEngine::new();
    let (style, attempt) = match engine.load_model(name) {
        Ok(LoadStep::Fetch { style, attempt, .. }) => (style, attempt),
        _ => panic!("expected a fetch step"),
    };
    assert_eq!(engine.finish_load(style, attempt, Some(vec![7u8; bytes]), compiled), Ok(()));
    engine
}

#[test]
fn blend_zero_strength_keeps_original() {
    let t = vec![0, 123_456, 1_000_000, -5, 2_000_000];
    let s = vec![9, 8, 7, 6, 5];
    assert_eq!(blend(&t, &s, 0), t);
    assert_eq!(blend(&t, &s, -300), t);
}

#[test]
fn blend_full_strength_gives_stylized() {
    let t = vec![0, 123_456, 1_000_000, -5, 2_000_000];
    let s = vec![9, 8, 7, 6, 5];
    assert_eq!(blend(&t, &s, ONE), s);
    assert_eq!(blend(&t, &s, 5 * ONE), s);
}

#[test]
fn blend_half_strength_scenario() {
    let original = vec![0, 500_000, 1_000_000];
    let stylized = vec![1_000_000, 500_000, 0];
    let blended = blend(&original, &stylized, 500_000);
    assert_eq!(blended.len(), 3);
    for v in blended {
        assert!((v - 500_000).abs() < 1_000);
    }
}

#[test]
fn blend_quarter_strength_rounds_down() {
    assert_eq!(blend(&vec![0, 3], &vec![1_000_000, 0], 250_000), vec![250_000, 2]);
    assert_eq!(blend(&vec![-1], &vec![0], 500_000), vec![-1]);
}

#[test]
fn fixed_point_helpers() {
    assert_eq!(clamp_unit(-3), 0);
    assert_eq!(clamp_unit(ONE + 1), ONE);
    assert_eq!(clamp_unit(42), 42);
    assert_eq!(div_floor(-7, 2), -4);
    assert_eq!(div_floor(7, 2), 3);
    assert_eq!(sine_milli(0), 0);
    assert_eq!(sine_milli(1571), 1000);
    assert_eq!(sine_milli(3142 + 1571), -1000);
    assert_eq!(sine_milli(6284 + 1571), 1000);
    assert_eq!(cosine_of_multiple(20, 0), 1000);
    assert_eq!(sine_of_multiple(10, 157), 999);
    // a whole number of turns later the value repeats
    assert_eq!(sine_of_multiple(20, 6284 * 1000 + 3), sine_milli(60));
    assert_eq!(cosine_of_multiple(20, 6284 * 7 + 5), sine_milli(100 + 1571));
    assert_eq!(sine_of_multiple(20, u64::MAX), sine_milli(20 * (u64::MAX % 6284)));
}

#[test]
fn preprocess_drops_alpha_and_normalizes() {
    let pixels = vec![0u8, 255, 128, 17, 1, 2, 3, 4];
    let t = preprocess(&pixels, 2, 1).unwrap();
    assert_eq!(t, vec![0, 1_000_000, 501_961, 3_922, 7_843, 11_765]);
}

#[test]
fn preprocess_rejects_wrong_size() {
    assert_eq!(preprocess(&vec![0u8; 7], 2, 1), Err(EngineError::DecodeError));
    assert_eq!(preprocess(&vec![0u8; 8], 1, 1), Err(EngineError::DecodeError));
}

#[test]
fn postprocess_rounds_clamps_and_makes_opaque() {
    let t = vec![0, 1_000_000, 500_000, -20, 3_000_000, 1_961];
    assert_eq!(postprocess(&t, 2, 1), vec![0, 255, 128, 255, 0, 255, 1, 255]);
    assert_eq!(denormalize(-1), 0);
    assert_eq!(denormalize(ONE as i32), 255);
}

#[test]
fn codec_round_trip_keeps_channels() {
    let pixels: Vec<u8> = (0..1024u32).map(|i| (i * 7 % 256) as u8).collect();
    let t = preprocess(&pixels, 16, 16).unwrap();
    let back = postprocess(&t, 16, 16);
    for (k, (a, b)) in pixels.iter().zip(back.iter()).enumerate() {
        if k % 4 == 3 {
            assert_eq!(*b, 255);
        } else {
            assert_eq!(a, b);
        }
    }
}

#[test]
fn cubist_single_edge_pixel_scenario() {
    let out = simulate(Style::PicassoCubist, &vec![0, 500_000, 1_000_000], 1);
    assert_eq!(out, vec![0, 1_000_000, 1_000_000]);
}

#[test]
fn cubist_interior_pixel_is_softened() {
    assert_eq!(style_element(Style::PicassoCubist, 500_000, 0, 17, 1, 257 + 17), 500_000);
    assert_eq!(style_element(Style::PicassoCubist, 0, 0, 17, 1, 257 + 17), 200_000);
}

#[test]
fn cubist_block_boundaries_are_boosted() {
    assert_eq!(style_element(Style::PicassoCubist, 400_000, 0, 16, 5, 5 * 256 + 16), 800_000);
    assert_eq!(style_element(Style::PicassoCubist, 400_000, 2, 5, 32, 32 * 256 + 5), 800_000);
    assert_eq!(style_element(Style::PicassoCubist, 500_000, 0, 16, 16, 16 * 257), 1_000_000);
}

#[test]
fn style_formulas_at_origin() {
    assert_eq!(style_element(Style::VanGoghStarryNight, 500_000, 0, 0, 0, 0), 900_000);
    assert_eq!(style_element(Style::VanGoghStarryNight, 0, 2, 0, 0, 0), 200_000);
    assert_eq!(style_element(Style::CyberpunkNeon, 500_000, 0, 0, 0, 0), 650_000);
    assert_eq!(style_element(Style::CyberpunkNeon, 500_000, 1, 0, 0, 0), 400_000);
    assert_eq!(style_element(Style::CyberpunkNeon, 500_000, 2, 0, 0, 0), 750_000);
    assert_eq!(style_element(Style::MonetWaterLilies, 500_000, 0, 0, 0, 0), 600_000);
}

#[test]
fn neon_glow_depends_on_position() {
    // sine of 1570 milliradians is 999 thousandths, a glow of 199_800 millionths
    assert_eq!(style_element(Style::CyberpunkNeon, 0, 0, 100, 57, 0), 199_800);
    assert_eq!(style_element(Style::CyberpunkNeon, 0, 1, 100, 57, 0), 0);
}

#[test]
fn far_pixels_stay_in_unit_interval() {
    for style in all_styles() {
        let v = style_element(style, 700_000, 2, u64::MAX / 2, u64::MAX / 2, u64::MAX);
        assert!(v >= 0 && v <= 1_000_000);
    }
}

#[test]
fn cel_shading_levels() {
    assert_eq!(style_element(Style::AnimeStudioGhibli, 500_000, 0, 0, 0, 0), 450_000);
    assert_eq!(style_element(Style::AnimeStudioGhibli, 700_000, 0, 0, 0, 0), 866_665);
    assert_eq!(style_element(Style::AnimeStudioGhibli, 1_000_000, 1, 3, 4, 5), 1_000_000);
    assert_eq!(style_element(Style::AnimeStudioGhibli, 0, 1, 3, 4, 5), 0);
    assert_eq!(style_element(Style::AnimeStudioGhibli, -900_000, 1, 3, 4, 5), 0);
}

#[test]
fn simulated_output_stays_in_unit_interval() {
    let extremes = vec![i32::MIN, -1, 0, 1, 499_999, 1_000_000, 1_000_001, i32::MAX];
    let mut input = Vec::new();
    for _ in 0..40 {
        input.extend_from_slice(&extremes);
    }
    for style in all_styles() {
        for v in simulate(style, &input, 7) {
            assert!(v >= 0 && v <= 1_000_000);
        }
    }
}

#[test]
fn simulation_is_deterministic() {
    let input = gradient_tensor();
    for style in all_styles() {
        assert_eq!(simulate(style, &input, 256), simulate(style, &input, 256));
    }
}

#[test]
fn registry_lists_five_styles() {
    let models = registry();
    assert_eq!(models.len(), 5);
    assert_eq!(models[0].name, "van_gogh_starry_night");
    assert_eq!(models[1].model_url, "/models/picasso_cubist.onnx");
    assert_eq!(models[2].size_mb_tenths, 28);
    assert!(models.iter().all(|m| m.input_width == 256 && m.input_height == 256 && m.input_channels == 3));
    assert_eq!(StyleTransferEngine::new().get_models().len(), 5);
}

#[test]
fn find_style_by_identifier() {
    assert_eq!(find_style("monet_water_lilies"), Some(Style::MonetWaterLilies));
    assert_eq!(find_style("anime_studio_ghibli"), Some(Style::AnimeStudioGhibli));
    assert_eq!(find_style("nonexistent"), None);
    assert_eq!(find_style(""), None);
    assert_eq!(Style::CyberpunkNeon.id(), "cyberpunk_neon");
}

#[test]
fn ensure_loaded_unknown_style_fetches_nothing() {
    let mut engine = StyleTransferEngine::new();
    assert!(matches!(engine.load_model("nonexistent"), Err(EngineError::UnknownStyle)));
    assert_eq!(engine.get_stats().models_loaded, 0);
    // the registered styles are all still to be fetched
    assert!(matches!(engine.load_model("picasso_cubist"), Ok(LoadStep::Fetch { .. })));
}

#[test]
fn load_asks_for_fetch_then_is_ready() {
    let mut engine = StyleTransferEngine::new();
    match engine.load_model("picasso_cubist") {
        Ok(LoadStep::Fetch { style, url, attempt }) => {
            assert_eq!(style, Style::PicassoCubist);
            assert_eq!(url, "/models/picasso_cubist.onnx");
            assert_eq!(attempt, 1);
        }
        _ => panic!("expected a fetch step"),
    }
    // a second caller waits for the fetch under way
    assert!(matches!(engine.load_model("picasso_cubist"), Ok(LoadStep::Wait { attempt: 1 })));
    assert!(matches!(engine.load_model("picasso_cubist"), Ok(LoadStep::Wait { attempt: 1 })));
    assert!(matches!(engine.poll_load("picasso_cubist", 1), Ok(LoadStep::Wait { attempt: 1 })));
    assert_eq!(engine.finish_load(Style::PicassoCubist, 1, Some(vec![1, 2, 3]), true), Ok(()));
    assert!(matches!(engine.poll_load("picasso_cubist", 1), Ok(LoadStep::Ready)));
    assert!(matches!(engine.load_model("picasso_cubist"), Ok(LoadStep::Ready)));
    // a second completion keeps the first entry
    assert_eq!(engine.finish_load(Style::PicassoCubist, 1, Some(vec![9; 50]), false), Ok(()));
    assert_eq!(engine.get_memory_usage(), 3);
    assert!(engine.has_compiled_model("picasso_cubist"));
}

#[test]
fn failed_fetch_caches_nothing() {
    let mut engine = StyleTransferEngine::new();
    assert!(matches!(engine.load_model("monet_water_lilies"), Ok(LoadStep::Fetch { attempt: 1, .. })));
    assert_eq!(
        engine.finish_load(Style::MonetWaterLilies, 1, None, false),
        Err(EngineError::AcquisitionError)
    );
    // a later caller retries with a new attempt
    assert!(matches!(engine.load_model("monet_water_lilies"), Ok(LoadStep::Fetch { attempt: 2, .. })));
    assert_eq!(engine.get_stats().models_loaded, 0);
    assert_eq!(engine.get_memory_usage(), 0);
    let pixels = vec![0u8; 256 * 256 * 4];
    assert_eq!(
        engine.process_image(&pixels, "monet_water_lilies", ONE, None),
        Err(EngineError::AcquisitionError)
    );
}

#[test]
fn stats_count_entries_and_bytes() {
    let mut engine = loaded_engine("cyberpunk_neon", false, 1000);
    assert_eq!(engine.finish_load(Style::AnimeStudioGhibli, 0, Some(vec![0; 24]), true), Ok(()));
    engine.initialize(true);
    let stats = engine.get_stats();
    assert_eq!(stats.models_loaded, 2);
    assert!(stats.webgpu_available);
    assert_eq!(stats.total_cached_bytes, 1024);
}

#[test]
fn uncompiled_model_falls_back_to_simulation() {
    let engine = loaded_engine("van_gogh_starry_night", false, 16);
    let input = gradient_tensor();
    let neural = vec![3i32; LEN];
    let out = engine.infer("van_gogh_starry_night", &input, Some(neural)).unwrap();
    assert_eq!(out, simulate(Style::VanGoghStarryNight, &input, 256));
}

#[test]
fn compiled_model_output_is_used() {
    let engine = loaded_engine("van_gogh_starry_night", true, 16);
    let input = gradient_tensor();
    let neural = vec![3i32; LEN];
    assert_eq!(engine.infer("van_gogh_starry_night", &input, Some(neural.clone())).unwrap(), neural);
    // the model's channel-planar output is reordered to the interleaved layout
    let planar: Vec<i32> = (0..LEN as i32).collect();
    let out = engine.infer("van_gogh_starry_night", &input, Some(planar.clone())).unwrap();
    assert_eq!(out[0], 0);
    assert_eq!(out[1], 65_536);
    assert_eq!(out[2], 131_072);
    assert_eq!(out[3], 1);
    assert_eq!(out, to_interleaved(&planar, 256, 256));
    // a compiled model whose output has the wrong length is ignored
    let short = vec![3i32; 10];
    let out = engine.infer("van_gogh_starry_night", &input, Some(short)).unwrap();
    assert_eq!(out, simulate(Style::VanGoghStarryNight, &input, 256));
    let out = engine.infer("van_gogh_starry_night", &input, None).unwrap();
    assert_eq!(out, simulate(Style::VanGoghStarryNight, &input, 256));
}

#[test]
fn infer_unknown_style_changes_nothing() {
    let engine = loaded_engine("monet_water_lilies", false, 5);
    let before = engine.get_stats();
    let r = engine.infer("nonexistent", &gradient_tensor(), None);
    assert_eq!(r, Err(EngineError::UnknownStyle));
    let after = engine.get_stats();
    assert_eq!(before.models_loaded, after.models_loaded);
    assert_eq!(before.total_cached_bytes, after.total_cached_bytes);
}

#[test]
fn infer_rejects_wrong_shape() {
    let engine = StyleTransferEngine::new();
    let r = engine.infer("picasso_cubist", &vec![0; 3], None);
    assert_eq!(r, Err(EngineError::ShapeMismatch));
}

#[test]
fn process_image_zero_strength_round_trips() {
    let engine = loaded_engine("monet_water_lilies", false, 8);
    let pixels: Vec<u8> = (0..256 * 256 * 4).map(|i| (i % 251) as u8).collect();
    let out = engine.process_image(&pixels, "monet_water_lilies", 0, None).unwrap();
    assert_eq!(out.len(), pixels.len());
    for k in 0..pixels.len() {
        if k % 4 == 3 {
            assert_eq!(out[k], 255);
        } else {
            assert_eq!(out[k], pixels[k]);
        }
    }
}

#[test]
fn process_image_full_strength_uses_styled_tensor() {
    let engine = loaded_engine("picasso_cubist", false, 8);
    let pixels = vec![128u8; 256 * 256 * 4];
    let out = engine.process_image(&pixels, "picasso_cubist", ONE, None).unwrap();
    let input = preprocess(&pixels, 256, 256).unwrap();
    let expected = postprocess(&simulate(Style::PicassoCubist, &input, 256), 256, 256);
    assert_eq!(out, expected);
    // first pixel lies on a block edge: doubled and clamped
    assert_eq!(&out[0..4], &[255, 255, 255, 255]);
    // pixel (16, 0) starts a block: doubled and clamped
    assert_eq!(&out[64..68], &[255, 255, 255, 255]);
    // pixel (1, 1) lies inside a block: 0.502 * 0.6 + 0.2
    assert_eq!(&out[1028..1032], &[128, 128, 128, 255]);
}

#[test]
fn process_image_errors() {
    let engine = loaded_engine("cyberpunk_neon", false, 8);
    assert_eq!(
        engine.process_image(&vec![0u8; 16], "nonexistent", ONE, None),
        Err(EngineError::UnknownStyle)
    );
    assert_eq!(
        engine.process_image(&vec![0u8; 16], "cyberpunk_neon", ONE, None),
        Err(EngineError::DecodeError)
    );
}

#[test]
fn error_messages() {
    assert_eq!(EngineError::UnknownStyle.message(), "Model not found");
    assert_eq!(EngineError::AcquisitionError.message(), "Failed to fetch model");
    assert_eq!(EngineError::DecodeError.message(), "image could not be decoded");
    assert_eq!(EngineError::ShapeMismatch.message(), "tensor length does not match the style");
}

#[test]
fn descriptions_are_listed() {
    let models = registry();
    assert_eq!(models[1].description, "Geometric abstraction in revolutionary cubist style");
    assert_eq!(models[4].description, "Studio Ghibli inspired animation transformation");
    assert_eq!(Style::MonetWaterLilies.description(), "Impressionist technique capturing light and atmosphere");
}

#[test]
fn planar_layout_of_two_pixels() {
    let t = vec![1, 2, 3, 4, 5, 6];
    let p = to_planar(&t, 2, 1);
    assert_eq!(p, vec![1, 4, 2, 5, 3, 6]);
    assert_eq!(to_interleaved(&p, 2, 1), t);
    assert_eq!(to_planar(&vec![], 0, 5), Vec::<i32>::new());
}

#[test]
fn planar_layout_round_trips() {
    let t: Vec<i32> = (0..(4 * 3 * 3)).collect();
    let p = to_planar(&t, 4, 3);
    // channel 2, row 1, column 3
    assert_eq!(p[2 * 12 + 1 * 4 + 3], t[(1 * 4 + 3) * 3 + 2]);
    assert_eq!(to_interleaved(&p, 4, 3), t);
}

#[test]
fn new_engine_reports_nothing_cached() {
    let engine = StyleTransferEngine::new();
    let stats = engine.get_stats();
    assert_eq!(stats.models_loaded, 0);
    assert_eq!(stats.total_cached_bytes, 0);
    assert!(!stats.webgpu_available);
    assert_eq!(engine.get_memory_usage(), 0);
}

#[test]
fn waiters_share_a_failed_fetch() {
    let mut engine = StyleTransferEngine::new();
    assert!(matches!(engine.load_model("cyberpunk_neon"), Ok(LoadStep::Fetch { attempt: 1, .. })));
    // a second caller joins attempt 1 instead of fetching
    assert!(matches!(engine.load_model("cyberpunk_neon"), Ok(LoadStep::Wait { attempt: 1 })));
    assert_eq!(
        engine.finish_load(Style::CyberpunkNeon, 1, None, false),
        Err(EngineError::AcquisitionError)
    );
    // the waiter learns that its attempt failed
    assert_eq!(engine.poll_load("cyberpunk_neon", 1).err(), Some(EngineError::AcquisitionError));
    // a caller arriving later retries
    assert!(matches!(engine.load_model("cyberpunk_neon"), Ok(LoadStep::Fetch { attempt: 2, .. })));
    assert_eq!(engine.poll_load("cyberpunk_neon", 1).err(), Some(EngineError::AcquisitionError));
    assert!(matches!(engine.poll_load("cyberpunk_neon", 2), Ok(LoadStep::Wait { attempt: 2 })));
    // a late completion of the failed attempt does not disturb the new one
    assert_eq!(
        engine.finish_load(Style::CyberpunkNeon, 1, None, false),
        Err(EngineError::AcquisitionError)
    );
    assert!(matches!(engine.poll_load("cyberpunk_neon", 2), Ok(LoadStep::Wait { attempt: 2 })));
    assert_eq!(engine.finish_load(Style::CyberpunkNeon, 2, Some(vec![5; 10]), false), Ok(()));
    assert!(matches!(engine.poll_load("cyberpunk_neon", 2), Ok(LoadStep::Ready)));
    assert!(matches!(engine.load_model("cyberpunk_neon"), Ok(LoadStep::Ready)));
    assert_eq!(engine.get_stats().models_loaded, 1);
}

#[test]
fn poll_unknown_style() {
    let engine = StyleTransferEngine::new();
    assert_eq!(engine.poll_load("nonexistent", 1).err(), Some(EngineError::UnknownStyle));
    assert_eq!(engine.poll_load("anime_studio_ghibli", 1).err(), Some(EngineError::AcquisitionError));
}
