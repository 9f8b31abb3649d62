use hocket_store::error::{ProjectStoreError, StoreFailure};
use hocket_store::host::{layout_step, placeholder_sheet, surface_extent, LayoutStep, Ui};
use hocket_store::identity::{choose_data_root, fingerprint_of, DataRootSource};
use hocket_store::media_format::{stored_media_format, MediaDefect, WavFormat};
use hocket_store::media_ref::{referenced_media, MediaRef};
use hocket_store::project_store::{ProjectStore, SavePlan};
use hocket_store::view::{
    arm_label, combination_cell_label, combination_row, expand_label, is_active_slot,
    layer_title, mute_label, selectone_slot_label, settings_text, SessionSummary, Surface,
};

fn r(b: u8) -> MediaRef {
    MediaRef { bytes: [b; 32] }
}

#[test]
fn referenced_media_is_ascending_and_unique() {
    let mut high = [0u8; 32];
    high[0] = 1;
    let mut low = [0u8; 32];
    low[31] = 200;
    let refs = referenced_media(&vec![MediaRef { bytes: high }, r(0), MediaRef { bytes: low }, r(0)]);
    assert_eq!(refs, vec![r(0), MediaRef { bytes: low }, MediaRef { bytes: high }]);
    assert!(referenced_media(&vec![]).is_empty());
}

#[test]
fn save_plan_lists_references_once() {
    let plan = SavePlan::new(&vec![r(5), r(2), r(5)]);
    assert_eq!(plan.references(), &vec![r(2), r(5)]);
    let missing = plan.check_media(&vec![true, false]).err().unwrap();
    match missing {
        ProjectStoreError::MissingMedia(v) => assert_eq!(v, vec![r(5)]),
        other => panic!("unexpected {other:?}"),
    }
}

#[test]
fn project_store_hands_back_its_backend() {
    let store = ProjectStore::new(41u32);
    assert_eq!(*store.backend(), 41);
}

#[test]
fn error_messages_read_as_documented() {
    assert_eq!(
        ProjectStoreError::Store(StoreFailure::Backend("disk full".to_string())).message(),
        "storage failed: backend: disk full"
    );
    assert_eq!(
        ProjectStoreError::Manifest("bad cbor".to_string()).message(),
        "project manifest failed: bad cbor"
    );
    assert_eq!(ProjectStoreError::MissingManifest.message(), "project manifest is missing");
    assert_eq!(
        ProjectStoreError::MissingMedia(vec![r(1), r(2), r(3)]).message(),
        "project save is missing 3 media blob(s)"
    );
    let hex_ab = "ab".repeat(32);
    assert_eq!(
        ProjectStoreError::InvalidMedia { reference: r(0xab), reason: MediaDefect::NotMono.reason() }
            .message(),
        format!("media {hex_ab} is invalid: expected mono audio")
    );
    assert_eq!(
        ProjectStoreError::MediaEncode("full".to_string()).message(),
        "media encoding failed: full"
    );
    let hex_01 = "01".repeat(32);
    assert_eq!(
        ProjectStoreError::MediaHashMismatch { expected: r(0xab), actual: r(1) }.message(),
        format!("media hash mismatch: expected {hex_ab}, found {hex_01}")
    );
    let from: ProjectStoreError = StoreFailure::Codec("x".to_string()).into();
    assert_eq!(from.message(), "storage failed: codec: x");
}

#[test]
fn defect_reasons() {
    assert_eq!(MediaDefect::Unreadable.reason(), "unreadable WAV");
    assert_eq!(MediaDefect::NotMono.reason(), "expected mono audio");
    assert_eq!(MediaDefect::NotFloat32.reason(), "expected 32-bit float samples");
    assert_eq!(MediaDefect::CorruptSamples.reason(), "corrupt sample data");
}

#[test]
fn stored_format_is_mono_float32() {
    assert_eq!(
        stored_media_format(48_000),
        WavFormat { channels: 1, sample_rate: 48_000, bits_per_sample: 32, float_samples: true }
    );
}

#[test]
fn fingerprint_is_the_first_six_bytes_in_hex() {
    let mut key = [0u8; 32];
    key[..7].copy_from_slice(&[0x00, 0x0f, 0xa0, 0xff, 0x12, 0x9c, 0x77]);
    assert_eq!(fingerprint_of(&key), "000fa0ff129c");
}

#[test]
fn data_root_prefers_localappdata_then_xdg_then_home() {
    assert_eq!(choose_data_root(true, true, true), Some(DataRootSource::LocalAppData));
    assert_eq!(choose_data_root(false, true, true), Some(DataRootSource::XdgDataHome));
    assert_eq!(choose_data_root(false, false, true), Some(DataRootSource::Home));
    assert_eq!(choose_data_root(false, false, false), None);
    assert_eq!(DataRootSource::LocalAppData.subdirectory(), "Strophe");
    assert_eq!(DataRootSource::XdgDataHome.subdirectory(), "strophe");
    assert_eq!(DataRootSource::Home.subdirectory(), ".local/share/strophe");
}

#[test]
fn surfaces_have_labels_and_default_to_tracks() {
    assert_eq!(Surface::Tracks.label(), "Tracks");
    assert_eq!(Surface::Combination.label(), "Combination");
    assert_eq!(Surface::Settings.label(), "Settings");
    assert_eq!(Surface::default(), Surface::Tracks);
}

#[test]
fn combination_cells_bracket_the_active_variation() {
    assert_eq!(combination_cell_label(0, true), "[v1]");
    assert_eq!(combination_cell_label(9, false), " v10 ");
    let row = combination_row(&"Drums".to_string(), 3, Some(1));
    assert_eq!(row, vec!["Drums", " v1 ", "[v2]", " v3 "]);
    let empty = combination_row(&"Bass".to_string(), 0, None);
    assert_eq!(empty, vec!["Bass", "(no layers)"]);
    assert!(is_active_slot(Some(4), 4));
    assert!(is_active_slot(Some(0), 65_536));
    assert!(!is_active_slot(None, 0));
}

#[test]
fn strip_labels() {
    assert_eq!(arm_label(true, &"Keys".to_string()), "\u{25cf}  Keys");
    assert_eq!(arm_label(false, &"Keys".to_string()), "\u{25cb}  Keys");
    assert_eq!(selectone_slot_label(0, true), "\u{25cf} v1");
    assert_eq!(selectone_slot_label(2, false), "v3");
    assert_eq!(expand_label(true, 4), "\u{25be} layers");
    assert_eq!(expand_label(false, 4), "\u{25b8} 4 layer(s)");
    assert_eq!(layer_title(12), "L12");
    assert_eq!(mute_label(true), "muted");
    assert_eq!(mute_label(false), "on");
}

#[test]
fn settings_lines() {
    let t = settings_text(&SessionSummary {
        deeler: true,
        track_count: 4,
        bars_per_phrase: 2,
        bpm: 120,
        beats_per_bar: 3,
        beat_unit: 4,
        master_clock: false,
        count_in_bars: 1,
    });
    assert_eq!(t.profile, "Profile: Deeler (select-one variations)");
    assert_eq!(t.session, "4 tracks \u{b7} 2 bars/phrase \u{b7} 120 BPM \u{b7} 3/4");
    assert_eq!(t.clock, "Master clock: off \u{2014} click muted, no count-in");
    assert_eq!(t.clock_toggle, "Turn on");
    assert_eq!(t.count_in, "Count-in: 1 bar(s)");
    assert_eq!(t.tempo, "Tempo: 120 BPM");
    assert_eq!(t.beats, "Beats/bar: 3");
    let looper = settings_text(&SessionSummary {
        deeler: false,
        track_count: 0,
        bars_per_phrase: 0,
        bpm: 0,
        beats_per_bar: 0,
        beat_unit: 0,
        master_clock: true,
        count_in_bars: 0,
    });
    assert_eq!(looper.profile, "Profile: Looper (summed overdub)");
    assert_eq!(looper.clock, "Master clock: on \u{2014} click audible, count-in active");
    assert_eq!(looper.clock_toggle, "Turn off");
}

#[test]
fn host_counter_and_sheet() {
    let mut ui = Ui::default();
    assert_eq!(ui.counter_text(), "clicked 0 times \u{2014} the host loop works");
    ui.click();
    ui.click();
    assert_eq!(ui.clicks, 2);
    assert_eq!(ui.counter_text(), "clicked 2 times \u{2014} the host loop works");
    let sheet = placeholder_sheet();
    assert!(sheet.starts_with("\n.root { width: 100%;"));
    assert!(sheet.contains(".btn:hover { background-color: #3a3442; }"));
}

#[test]
fn layout_is_rebuilt_on_structure_or_size_changes() {
    assert_eq!(layout_step(false, &vec![], false), LayoutStep::Rebuild);
    assert_eq!(layout_step(true, &vec![true, false], false), LayoutStep::Rebuild);
    assert_eq!(layout_step(true, &vec![true], true), LayoutStep::Rebuild);
    assert_eq!(layout_step(true, &vec![true, true], false), LayoutStep::Apply);
    assert_eq!(layout_step(true, &vec![], false), LayoutStep::Keep);
    assert_eq!(surface_extent(0, 0), (1, 1));
    assert_eq!(surface_extent(800, 0), (800, 1));
}
