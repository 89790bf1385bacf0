use whispering_recorder::config::{
    choose_vad_sample_rate, distance_between, get_optimal_config, is_supported_format,
    nearest_search_meets_inverted_range, unsupported_format_message,
    nearest_rate, select_vad_config, target_sample_rate, vad_rate_priority, ConfigChoice,
    ConfigError, ConfigRange, SampleFormat,
};

fn range(channels: u16, min: u32, max: u32, format: SampleFormat) -> ConfigRange {
    ConfigRange { channels, min_sample_rate: min, max_sample_rate: max, sample_format: format }
}

#[test]
fn supported_formats_are_f32_i16_u16() {
    assert!(is_supported_format(SampleFormat::F32));
    assert!(is_supported_format(SampleFormat::I16));
    assert!(is_supported_format(SampleFormat::U16));
    assert!(!is_supported_format(SampleFormat::I32));
    assert!(!is_supported_format(SampleFormat::U8));
    assert!(!is_supported_format(SampleFormat::F64));
    assert!(!is_supported_format(SampleFormat::Other));
}

#[test]
fn target_defaults_to_16k() {
    assert_eq!(target_sample_rate(None), 16000);
    assert_eq!(target_sample_rate(Some(44100)), 44100);
}

#[test]
fn no_supported_format_is_an_error() {
    let configs = vec![range(1, 8000, 48000, SampleFormat::I32), range(2, 8000, 48000, SampleFormat::U8)];
    assert_eq!(get_optimal_config(&configs, None), Err(ConfigError::NoSupportedFormat));
    assert_eq!(get_optimal_config(&Vec::new(), Some(16000)), Err(ConfigError::NoSupportedFormat));
}

#[test]
fn mono_at_target_is_preferred_over_earlier_stereo() {
    let configs = vec![
        range(2, 8000, 48000, SampleFormat::F32),
        range(1, 44100, 48000, SampleFormat::F32),
        range(1, 8000, 48000, SampleFormat::I16),
        range(1, 8000, 48000, SampleFormat::F32),
    ];
    assert_eq!(
        get_optimal_config(&configs, None),
        Ok(ConfigChoice::Range { index: 2, sample_rate: 16000 })
    );
}

#[test]
fn unsupported_mono_is_skipped() {
    let configs = vec![
        range(1, 8000, 48000, SampleFormat::I32),
        range(2, 8000, 48000, SampleFormat::U16),
    ];
    assert_eq!(
        get_optimal_config(&configs, Some(22050)),
        Ok(ConfigChoice::Range { index: 1, sample_rate: 22050 })
    );
}

#[test]
fn stereo_at_target_when_no_mono_covers_it() {
    let configs = vec![
        range(1, 44100, 48000, SampleFormat::F32),
        range(2, 8000, 16000, SampleFormat::F32),
    ];
    assert_eq!(
        get_optimal_config(&configs, None),
        Ok(ConfigChoice::Range { index: 1, sample_rate: 16000 })
    );
}

#[test]
fn nearest_mono_rate_when_target_is_unsupported() {
    let configs = vec![
        range(2, 96000, 96000, SampleFormat::F32),
        range(1, 48000, 96000, SampleFormat::F32),
        range(1, 22050, 44100, SampleFormat::I16),
        range(1, 22050, 32000, SampleFormat::U16),
    ];
    // 22050 is 6050 away from 16000 in both later ranges: the first of them wins.
    assert_eq!(
        get_optimal_config(&configs, None),
        Ok(ConfigChoice::Range { index: 2, sample_rate: 22050 })
    );
    // Above every range, the highest rate is nearest.
    assert_eq!(
        get_optimal_config(&configs, Some(192000)),
        Ok(ConfigChoice::Range { index: 1, sample_rate: 96000 })
    );
}

#[test]
fn device_default_when_only_stereo_misses_target() {
    let configs = vec![range(2, 44100, 48000, SampleFormat::F32)];
    assert_eq!(get_optimal_config(&configs, None), Ok(ConfigChoice::DeviceDefault));
}

#[test]
fn config_error_messages() {
    assert_eq!(
        ConfigError::NoSupportedFormat.message(),
        "No supported input configurations (need F32, I16, or U16 format)"
    );
    assert_eq!(ConfigError::NoSuitableConfig.message(), "Failed to find suitable audio configuration");
}

#[test]
fn nearest_rate_clamps_into_range() {
    let c = range(1, 22050, 44100, SampleFormat::F32);
    assert_eq!(nearest_rate(&c, 16000), 22050);
    assert_eq!(nearest_rate(&c, 48000), 44100);
    assert_eq!(nearest_rate(&c, 32000), 32000);
}

#[test]
fn distance_is_absolute_difference_for_audio_rates() {
    assert_eq!(distance_between(22050, 16000), 6050);
    assert_eq!(distance_between(16000, 48000), 32000);
    assert_eq!(distance_between(0, 0), 0);
    assert_eq!(distance_between(u32::MAX, 0), u32::MAX);
    assert_eq!(distance_between(0x8000_0000, 48000), 0x8000_0000 - 48000);
}

#[test]
fn vad_priority_prefers_16k_then_44k_48k() {
    assert_eq!(vad_rate_priority(16000), 0);
    assert_eq!(vad_rate_priority(44100), 1);
    assert_eq!(vad_rate_priority(48000), 1);
    assert_eq!(vad_rate_priority(8000), 2);
}

#[test]
fn vad_config_is_first_of_least_priority() {
    let configs = vec![
        range(2, 8000, 96000, SampleFormat::F32),
        range(2, 48000, 48000, SampleFormat::F32),
        range(1, 44100, 48000, SampleFormat::I16),
    ];
    assert_eq!(select_vad_config(&configs), Some(1));
    let configs = vec![
        range(2, 8000, 96000, SampleFormat::F32),
        range(1, 16000, 16000, SampleFormat::I16),
        range(1, 16000, 48000, SampleFormat::F32),
    ];
    assert_eq!(select_vad_config(&configs), Some(1));
    assert_eq!(select_vad_config(&Vec::new()), None);
    let configs = vec![range(1, 8000, 8000, SampleFormat::F32)];
    assert_eq!(select_vad_config(&configs), Some(0));
}

#[test]
fn vad_rate_order_16k_48k_44k_max() {
    assert_eq!(choose_vad_sample_rate(&range(1, 8000, 96000, SampleFormat::F32)), 16000);
    assert_eq!(choose_vad_sample_rate(&range(1, 44100, 96000, SampleFormat::F32)), 48000);
    assert_eq!(choose_vad_sample_rate(&range(1, 22050, 44100, SampleFormat::F32)), 44100);
    assert_eq!(choose_vad_sample_rate(&range(1, 8000, 11025, SampleFormat::F32)), 11025);
}

#[test]
fn inverted_range_is_taken_when_an_earlier_stage_decides() {
    let configs = vec![range(1, 8000, 48000, SampleFormat::F32), range(1, 50000, 40000, SampleFormat::F32)];
    assert!(!nearest_search_meets_inverted_range(&configs, None));
    assert_eq!(
        get_optimal_config(&configs, None),
        Ok(ConfigChoice::Range { index: 0, sample_rate: 16000 })
    );
}

#[test]
fn inverted_range_that_never_leads_the_search_is_taken() {
    let configs = vec![range(1, 17000, 20000, SampleFormat::F32), range(1, 60000, 50000, SampleFormat::F32)];
    assert!(!nearest_search_meets_inverted_range(&configs, None));
    assert_eq!(
        get_optimal_config(&configs, None),
        Ok(ConfigChoice::Range { index: 0, sample_rate: 17000 })
    );
}

#[test]
fn inverted_range_leading_the_search_is_detected() {
    let configs = vec![range(1, 50000, 40000, SampleFormat::F32), range(1, 17000, 20000, SampleFormat::F32)];
    assert!(nearest_search_meets_inverted_range(&configs, None));
    let configs = vec![range(1, 17000, 20000, SampleFormat::F32), range(1, 16500, 15000, SampleFormat::F32)];
    assert!(nearest_search_meets_inverted_range(&configs, None));
}

#[test]
fn far_preferred_rate_is_measured_exactly() {
    let configs = vec![range(1, 8000, 48000, SampleFormat::F32)];
    assert_eq!(
        get_optimal_config(&configs, Some(2_147_483_648)),
        Ok(ConfigChoice::Range { index: 0, sample_rate: 48000 })
    );
    let configs = vec![range(1, 8000, 8000, SampleFormat::F32), range(1, 4_000_000_000, 4_000_000_000, SampleFormat::F32)];
    assert_eq!(
        get_optimal_config(&configs, Some(3_000_000_000)),
        Ok(ConfigChoice::Range { index: 1, sample_rate: 4_000_000_000 })
    );
}

#[test]
fn unsupported_format_messages() {
    assert_eq!(unsupported_format_message(SampleFormat::I32, false), "Unsupported sample format: I32");
    assert_eq!(unsupported_format_message(SampleFormat::F64, true), "Unsupported sample format for VAD: F64");
}
