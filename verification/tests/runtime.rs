use std::collections::hash_map::DefaultHasher;
use std::hash::{Hash, Hasher};

use lottie_core::audio::{interleave_stereo, source_frame, AudioMixer};
use lottie_core::color::{parse_solid_color, solid_color_is_readable, solid_layer_size};
use lottie_core::expressions::{dimension_seed, wiggle_seed_from_string, ScopedVariables};
use lottie_core::names::NameMap;
use lottie_core::strings::str_less;
use lottie_core::morph::{reversed_items, rotate_items, segment_pairs};
use lottie_core::text::{complete_dash_array, dash_role, point_text_lines, DashRole};
use lottie_core::{
    clear_morph_cache, ControlValue, Decoder, EasingType, EffectObject, EncoderSettings, LoopType, PathMorphCache,
    Time,
};

#[test]
fn loop_type_names_ignore_case() {
    assert_eq!(LoopType::from_str("pingpong"), LoopType::PingPong);
    assert_eq!(LoopType::from_str("PingPong"), LoopType::PingPong);
    assert_eq!(LoopType::from_str("CONTINUE"), LoopType::Continue);
    assert_eq!(LoopType::from_str("offset"), LoopType::Offset);
    assert_eq!(LoopType::from_str("cycle"), LoopType::Cycle);
    assert_eq!(LoopType::from_str("ping pong"), LoopType::Cycle);
    assert_eq!(LoopType::from_str(""), LoopType::Cycle);
}

#[test]
fn scoped_variables_resolve_narrowest_scope() {
    let mut vars: ScopedVariables<i32> = ScopedVariables::new();
    assert_eq!(vars.get("speed"), None);
    vars.set_global("speed".to_string(), 1);
    assert_eq!(vars.get("speed"), Some(&1));
    vars.set_scene("speed".to_string(), 2);
    assert_eq!(vars.get("speed"), Some(&2));
    vars.set_local("speed".to_string(), 3);
    assert_eq!(vars.get("speed"), Some(&3));
    vars.set_global("speed".to_string(), 10);
    assert_eq!(vars.get("speed"), Some(&3));
    vars.set_local("speed".to_string(), 4);
    assert_eq!(vars.get("speed"), Some(&4));
    vars.set_global("size".to_string(), 7);
    assert_eq!(vars.get("size"), Some(&7));
}

#[test]
fn effect_object_controls() {
    let mut fx: EffectObject<i64> = EffectObject::new("Slider Control", 1);
    assert_eq!(fx.name(), "Slider Control");
    assert_eq!(fx.index(), 1);
    assert_eq!(fx.num_controls(), 0);
    fx.add_control(1, ControlValue::new("Slider", 10));
    fx.add_control(2, ControlValue::new("Angle", 90));
    assert_eq!(fx.num_controls(), 2);
    assert_eq!(*fx.control_by_name("Slider").unwrap().value(), 10);
    assert_eq!(fx.control_by_index(2).unwrap().name(), "Angle");
    assert!(fx.control_by_index(3).is_none());
    assert!(fx.control_by_name("slider").is_none());
    // a later control with the same name replaces the earlier one
    fx.add_control(3, ControlValue::new("Slider", 20));
    assert_eq!(*fx.control_by_name("Slider").unwrap().value(), 20);
    assert_eq!(*fx.control_by_index(1).unwrap().value(), 10);
    assert_eq!(fx.num_controls(), 2);
}

#[test]
fn wiggle_seed_is_low_bits_of_default_hash() {
    for s in ["", "position", "Layer 1/Transform/Rotation", "ünïcødé"] {
        let mut hasher = DefaultHasher::new();
        s.hash(&mut hasher);
        let expected = (hasher.finish() & 0xFFFF_FFFF) as u32;
        assert_eq!(wiggle_seed_from_string(s), expected, "input {s:?}");
    }
    assert_ne!(wiggle_seed_from_string("a"), wiggle_seed_from_string("b"));
}

#[test]
fn dimension_seeds_wrap() {
    assert_eq!(dimension_seed(12345, 0), 12345);
    assert_eq!(dimension_seed(12345, 2), 12347);
    assert_eq!(dimension_seed(u32::MAX, 1), 0);
    assert_eq!(dimension_seed(u32::MAX - 1, 3), 1);
}

#[test]
fn audio_mixer_reuses_free_slots() {
    let mut mixer: AudioMixer<&str> = AudioMixer::new(44100);
    assert_eq!(mixer.add_track("a"), 0);
    assert_eq!(mixer.add_track("b"), 1);
    assert_eq!(mixer.add_track("c"), 2);
    mixer.tracks[1] = None;
    assert_eq!(mixer.add_track("d"), 1);
    assert_eq!(mixer.add_track("e"), 3);
    assert_eq!(mixer.get_track_mut(1).map(|t| *t), Some("d"));
    *mixer.get_track_mut(2).unwrap() = "z";
    assert_eq!(mixer.tracks[2], Some("z"));
    assert!(mixer.get_track_mut(9).is_none());
    assert_eq!(mixer.sample_rate, 44100);
}

#[test]
fn solid_colours() {
    assert_eq!(parse_solid_color("#ff8000"), (255, 128, 0));
    assert_eq!(parse_solid_color("##0A0b0C"), (10, 11, 12));
    assert_eq!(parse_solid_color("ffffffAA"), (255, 255, 255));
    // an unreadable group reads as 0; a sign is allowed before one digit
    assert_eq!(parse_solid_color("#zz+f-1"), (0, 15, 0));
    assert_eq!(parse_solid_color("#é0000"), (0, 0, 0));
    // too short, or a group boundary inside a character: not readable
    assert!(solid_color_is_readable("#ff8000"));
    assert!(solid_color_is_readable("#é0000"));
    assert!(!solid_color_is_readable("#fff"));
    assert!(!solid_color_is_readable("######"));
    assert!(!solid_color_is_readable("#aé000"));
    assert!(!solid_color_is_readable("#0000aé"));
    assert!(solid_color_is_readable("#0000a0é"));
}

#[test]
fn text_lines_split_at_line_breaks() {
    let chars: Vec<char> = "ab\ncd\n\ne".chars().collect();
    assert_eq!(point_text_lines(&chars), vec![vec![0, 1], vec![3, 4], vec![], vec![7]]);
    assert_eq!(point_text_lines(&vec![]), vec![Vec::<usize>::new()]);
    assert_eq!(point_text_lines(&vec!['\n']), vec![Vec::<usize>::new(), Vec::new()]);
}

#[test]
fn dash_entries() {
    assert_eq!(dash_role(Some("o")), DashRole::Offset);
    assert_eq!(dash_role(Some("d")), DashRole::Length);
    assert_eq!(dash_role(Some("g")), DashRole::Length);
    assert_eq!(dash_role(Some("v")), DashRole::Length);
    assert_eq!(dash_role(Some("dd")), DashRole::Ignored);
    assert_eq!(dash_role(None), DashRole::Ignored);
    assert_eq!(complete_dash_array(vec![4, 2, 1]), vec![4, 2, 1, 4, 2, 1]);
    assert_eq!(complete_dash_array(vec![4, 2]), vec![4, 2]);
    assert_eq!(complete_dash_array(Vec::<u8>::new()), Vec::<u8>::new());
}

#[test]
fn vertex_orderings() {
    let v = vec![10, 11, 12, 13];
    assert_eq!(rotate_items(&v, 1), vec![11, 12, 13, 10]);
    assert_eq!(rotate_items(&v, 6), vec![12, 13, 10, 11]);
    assert_eq!(rotate_items(&Vec::<i32>::new(), 3), Vec::<i32>::new());
    assert_eq!(reversed_items(&v), vec![13, 12, 11, 10]);
    assert_eq!(segment_pairs(3, false), vec![(0, 1), (1, 2)]);
    assert_eq!(segment_pairs(3, true), vec![(0, 1), (1, 2), (2, 0)]);
    assert!(segment_pairs(1, true).is_empty());
    assert_eq!(segment_pairs(2, true), vec![(0, 1), (1, 0)]);
    assert!(segment_pairs(0, true).is_empty());
}

#[test]
fn morph_cache_clear() {
    let mut cache: PathMorphCache<u32> = PathMorphCache::new();
    assert!(cache.is_empty());
    assert_eq!(cache.get_normalized(1, || 5), 5);
    assert_eq!(cache.get_normalized(1, || 6), 5);
    assert_eq!(cache.get_normalized(2, || 6), 6);
    assert_eq!(cache.len(), 2);
    cache.clear();
    assert!(cache.is_empty());
    cache.get_normalized(3, || 1);
    clear_morph_cache(&mut cache);
    assert_eq!(cache.len(), 0);
    assert_eq!(cache.get_normalized(1, || 7), 7);
}

#[test]
fn easing_and_video_stand_ins() {
    assert_eq!(EasingType::BounceOut.effective_curve(), EasingType::EaseOut);
    assert_eq!(EasingType::EaseIn.effective_curve(), EasingType::EaseIn);
    let s = EncoderSettings::preset_h264_yuv420p(640, 360, false);
    assert_eq!((s.width, s.height, s.sample_rate), (640, 360, 48000));
    let mut d = Decoder::new("clip.mp4").expect("opens");
    assert!(d.seek(1500).is_ok());
    assert_eq!(Time::from_nth_of_second(3, 30), Time::from_nth_of_second(4, 30));
}

#[test]
fn names_sort_like_strings() {
    let mut m: NameMap<u8> = NameMap::new();
    let words = ["data_2", "Data_1", "data_10", "é", "z", "", "data_2", "ab", "a"];
    for (i, w) in words.iter().enumerate() {
        m.insert(w.to_string(), i as u8);
    }
    let mut expected: Vec<String> = words.iter().map(|w| w.to_string()).collect();
    expected.sort();
    expected.dedup();
    assert_eq!(m.sorted_names(), expected);
    assert_eq!(m.len(), expected.len());
    assert_eq!(m.get("data_2"), Some(&6));
    for a in words {
        for b in words {
            assert_eq!(str_less(a, b), a < b, "{a:?} < {b:?}");
        }
    }
}

#[test]
fn source_frames_wrap_or_stop() {
    assert_eq!(source_frame(5, 4, true), Some(1));
    assert_eq!(source_frame(3, 4, true), Some(3));
    assert_eq!(source_frame(3, 4, false), Some(3));
    assert_eq!(source_frame(4, 4, false), None);
    assert_eq!(source_frame(0, 0, false), None);
}

fn stereo_reference(samples: &[i32], channels: usize) -> Vec<i32> {
    let mut out = Vec::new();
    if channels == 1 {
        for s in samples {
            out.push(*s);
            out.push(*s);
        }
    } else if channels >= 2 {
        for chunk in samples.chunks(channels) {
            out.push(chunk[0]);
            out.push(chunk[1]);
        }
    }
    out
}

#[test]
fn stereo_conversion() {
    assert_eq!(interleave_stereo(&vec![1, 2, 3], 1), vec![1, 1, 2, 2, 3, 3]);
    assert_eq!(interleave_stereo(&vec![1, 2, 3, 4], 2), vec![1, 2, 3, 4]);
    assert_eq!(interleave_stereo(&vec![1, 2, 3, 4, 5, 6], 3), vec![1, 2, 4, 5]);
    assert_eq!(interleave_stereo(&vec![1, 2, 3, 4, 5], 3), vec![1, 2, 4, 5]);
    assert_eq!(interleave_stereo(&vec![1, 2, 3], 0), Vec::<i32>::new());
    assert_eq!(interleave_stereo(&Vec::<i32>::new(), 6), Vec::<i32>::new());
    let data: Vec<i32> = (0..60).collect();
    for channels in 1..8 {
        for len in 0..data.len() {
            if channels >= 2 && len % channels == 1 {
                continue;
            }
            let v = data[..len].to_vec();
            assert_eq!(interleave_stereo(&v, channels), stereo_reference(&v, channels), "{channels} {len}");
        }
    }
}

#[test]
fn cached_lookups_equal_fresh_ones() {
    let f = |k: u64| k * 2 + 1;
    let mut cache: PathMorphCache<u64> = PathMorphCache::new();
    let first: Vec<u64> = [3u64, 5, 3].iter().map(|&k| cache.get_normalized(k, || f(k))).collect();
    clear_morph_cache(&mut cache);
    let again: Vec<u64> = [3u64, 5, 3].iter().map(|&k| cache.get_normalized(k, || f(k))).collect();
    assert_eq!(first, vec![7, 11, 7]);
    assert_eq!(first, again);
}

#[test]
fn solid_layer_size_defaults_to_one_hundred() {
    assert_eq!(solid_layer_size(None, None), (100, 100));
    assert_eq!(solid_layer_size(Some(640), None), (640, 100));
    assert_eq!(solid_layer_size(None, Some(0)), (100, 0));
    assert_eq!(solid_layer_size(Some(1920), Some(1080)), (1920, 1080));
}
