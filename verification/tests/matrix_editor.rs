use rawdaw_app::matrix::decode_destination_str;
use rawdaw_app::matrix::decode_source_str;
use rawdaw_app::matrix::destination_choices;
use rawdaw_app::matrix::destination_options;
use rawdaw_app::matrix::mod_destination_label;
use rawdaw_app::matrix::mod_destination_value;
use rawdaw_app::matrix::mod_source_label;
use rawdaw_app::matrix::mod_source_value;
use rawdaw_app::matrix::source_options;
use rawdaw_app::matrix::ModDestination;
use rawdaw_app::matrix::ModSource;

#[test]
fn source_string_round_trips_every_variant() {
    for src in [
        ModSource::NoSource,
        ModSource::Env1,
        ModSource::Env2,
        ModSource::Env3,
        ModSource::Lfo1,
        ModSource::Osc0,
        ModSource::Osc1,
        ModSource::Osc2,
    ] {
        let s = mod_source_value(src);
        assert_eq!(decode_source_str(s), Some(src), "round trip failed for {s}");
    }
}

#[test]
fn destination_string_round_trips_every_variant() {
    let mut dests = vec![ModDestination::FilterCutoff, ModDestination::FilterResonance, ModDestination::LfoRate];
    for i in 0..3u8 {
        dests.push(ModDestination::OscLevel(i));
        dests.push(ModDestination::OscTune(i));
        dests.push(ModDestination::OscFineTune(i));
        dests.push(ModDestination::PmAmountOf(i));
        dests.push(ModDestination::AmAmountOf(i));
        dests.push(ModDestination::RmAmountOf(i));
    }
    for dst in dests {
        let s = mod_destination_value(dst);
        assert_eq!(decode_destination_str(&s), Some(dst), "round trip failed for {s}");
    }
}

#[test]
fn destination_option_list_covers_every_variant() {
    let opts = destination_options();
    assert_eq!(opts.len(), 21);
    for opt in &opts {
        assert!(decode_destination_str(&opt.value).is_some(), "destination option {} must decode", opt.value);
    }
    assert_eq!(destination_choices().len(), 21);
}

#[test]
fn source_option_list_covers_every_variant() {
    let opts = source_options();
    assert_eq!(opts.len(), 8);
    for opt in &opts {
        assert!(decode_source_str(&opt.value).is_some(), "source option {} must decode", opt.value);
    }
    assert_eq!(opts[0].value, "none");
    assert_eq!(opts[0].label, "—");
    assert_eq!(opts[1].label, "ENV 1 (amp)");
}

#[test]
fn destination_values_and_labels() {
    assert_eq!(mod_destination_value(ModDestination::OscTune(2)), "osc_tune_2");
    assert_eq!(mod_destination_label(ModDestination::OscTune(2)), "OSC 3 Tune");
    assert_eq!(mod_destination_label(ModDestination::PmAmountOf(0)), "PM into OSC 1");
    assert_eq!(mod_destination_label(ModDestination::LfoRate), "LFO 1 Rate");
    assert_eq!(mod_source_label(ModSource::Osc2), "OSC 3");
    let opts = destination_options();
    assert_eq!(opts[2].value, "osc_level_0");
    assert_eq!(opts[2].label, "OSC 1 Level");
    assert_eq!(opts[20].value, "lfo_rate");
}

#[test]
fn decode_destination_rejects_garbage() {
    assert_eq!(decode_destination_str("osc_level_"), None);
    assert_eq!(decode_destination_str("osc_level_256"), None);
    assert_eq!(decode_destination_str("osc_level_255"), Some(ModDestination::OscLevel(255)));
    assert_eq!(decode_destination_str("cutoff"), None);
    assert_eq!(decode_source_str("env4"), None);
}
