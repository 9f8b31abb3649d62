use std::collections::{BTreeMap, BTreeSet};
use std::io::Cursor;

use hocket_store::error::{ProjectStoreError, StoreFailure};
use hocket_store::media_format::{inspect_media, stored_media_format, MediaDefect};
use hocket_store::media_ref::MediaRef;
use hocket_store::project_store::{
    manifest_from_decode, manifest_from_lookup, media_key, LoadFound, LoadRun, LoadStep, ProjectStore, SaveFound,
    SavePlan, SaveStep, MANIFEST_KEY,
};
use muniment::{Backend, MemoryBackend, StoreError, WriteOp};
use pollster::block_on;

fn store_failure(error: StoreError) -> StoreFailure {
    match error {
        StoreError::Backend(m) => StoreFailure::Backend(m),
        StoreError::Codec(m) => StoreFailure::Codec(m),
    }
}

/// A stand-in content hash over the sample rate and the samples' bits.
fn hash_buffer(samples: &[f32], sample_rate: u32) -> MediaRef {
    let mut lanes: [u64; 4] = [
        0xcbf2_9ce4_8422_2325,
        0x8422_2325_cbf2_9ce4,
        0x1000_0000_01b3_0001,
        0x0123_4567_89ab_cdef,
    ];
    let mut feed = |word: u32| {
        for (i, lane) in lanes.iter_mut().enumerate() {
            *lane ^= u64::from(word).wrapping_add(i as u64);
            *lane = lane.wrapping_mul(0x0000_0100_0000_01b3);
        }
    };
    feed(sample_rate);
    for s in samples {
        feed(s.to_bits());
    }
    let mut bytes = [0u8; 32];
    for (i, lane) in lanes.iter().enumerate() {
        bytes[i * 8..i * 8 + 8].copy_from_slice(&lane.to_be_bytes());
    }
    MediaRef { bytes }
}

#[derive(Clone, Debug, Default)]
struct InMemoryStore(BTreeMap<MediaRef, (Vec<f32>, u32)>);

impl InMemoryStore {
    fn put(&mut self, samples: &[f32], sample_rate: u32) -> MediaRef {
        let reference = hash_buffer(samples, sample_rate);
        self.0.insert(reference, (samples.to_vec(), sample_rate));
        reference
    }
}

/// A manifest whose encoding is its phrase references, concatenated.
#[derive(Clone, Debug, PartialEq)]
struct Bundle {
    phrase_media: Vec<MediaRef>,
}

impl Bundle {
    fn to_bytes(&self) -> Vec<u8> {
        self.phrase_media.iter().flat_map(|r| r.bytes).collect()
    }

    fn from_bytes(bytes: &[u8]) -> Result<Bundle, String> {
        if bytes.len() % 32 != 0 {
            return Err("truncated manifest".to_string());
        }
        let phrase_media = bytes
            .chunks(32)
            .map(|c| MediaRef { bytes: c.try_into().unwrap() })
            .collect();
        Ok(Bundle { phrase_media })
    }
}

fn bundle_with_one_layer(store: &mut InMemoryStore) -> Bundle {
    let media = store.put(&[0.25, -0.5, 0.75], 48_000);
    Bundle { phrase_media: vec![media] }
}

fn encode(samples: &[f32], sample_rate: u32) -> Result<Vec<u8>, String> {
    let format = stored_media_format(sample_rate);
    let spec = hound::WavSpec {
        channels: format.channels,
        sample_rate: format.sample_rate,
        bits_per_sample: format.bits_per_sample,
        sample_format: hound::SampleFormat::Float,
    };
    let mut cursor = Cursor::new(Vec::new());
    let mut writer = hound::WavWriter::new(&mut cursor, spec).map_err(|e| e.to_string())?;
    for s in samples {
        writer.write_sample(*s).map_err(|e| e.to_string())?;
    }
    writer.finalize().map_err(|e| e.to_string())?;
    Ok(cursor.into_inner())
}

fn decode(bytes: &[u8]) -> Result<(Vec<f32>, u32), MediaDefect> {
    let rate = inspect_media(bytes)?;
    let mut reader = hound::WavReader::new(Cursor::new(bytes)).map_err(|_| MediaDefect::Unreadable)?;
    let samples = reader
        .samples::<f32>()
        .collect::<Result<Vec<f32>, _>>()
        .map_err(|_| MediaDefect::CorruptSamples)?;
    Ok((samples, rate))
}

fn save(
    project: &ProjectStore<MemoryBackend>,
    bundle: &Bundle,
    media: &InMemoryStore,
) -> Result<(), ProjectStoreError> {
    block_on(async {
        let plan = SavePlan::new(&bundle.phrase_media);
        let available: Vec<bool> =
            plan.references().iter().map(|r| media.0.contains_key(r)).collect();
        let mut run = plan.check_media(&available)?;
        loop {
            match run.next_step() {
                SaveStep::Media(step) => {
                    let (samples, rate) = media.0.get(&step.reference()).unwrap().clone();
                    let lookup = step.check_buffer(hash_buffer(&samples, rate))?;
                    let found = project.backend().get(lookup.key()).await.map_err(store_failure);
                    run = match lookup.on_lookup(found)? {
                        SaveFound::Existing(verify, bytes) => verify
                            .on_decoded(decode(&bytes).map(|(s, r)| hash_buffer(&s, r)))?,
                        SaveFound::Absent(enc) => enc.on_encoded(encode(&samples, rate))?,
                    };
                }
                SaveStep::Manifest(step) => {
                    let writes = step.finish(Ok(bundle.to_bytes()))?;
                    let ops: Vec<WriteOp> = writes
                        .into_iter()
                        .map(|w| WriteOp::Put { key: w.key, value: w.value })
                        .collect();
                    project.backend().apply(&ops).await.map_err(store_failure)?;
                    return Ok(());
                }
            }
        }
    })
}

struct Loaded {
    bundle: Bundle,
    media: InMemoryStore,
    missing_media: BTreeSet<MediaRef>,
}

fn load(project: &ProjectStore<MemoryBackend>) -> Result<Loaded, ProjectStoreError> {
    block_on(async {
        let found = project.backend().get(MANIFEST_KEY).await.map_err(store_failure);
        let bytes = manifest_from_lookup(found)?;
        let bundle = manifest_from_decode(Bundle::from_bytes(&bytes))?;
        let mut media = InMemoryStore::default();
        let mut run = LoadRun::new(&bundle.phrase_media);
        loop {
            match run.next_step() {
                LoadStep::Media(step) => {
                    let found = project.backend().get(&step.key()).await.map_err(store_failure);
                    run = match step.on_lookup(found)? {
                        LoadFound::Missing(next) => next,
                        LoadFound::Present(verify, bytes) => verify
                            .on_decoded(decode(&bytes).map(|(s, r)| media.put(&s, r)))?,
                    };
                }
                LoadStep::Done(missing) => {
                    return Ok(Loaded {
                        bundle,
                        media,
                        missing_media: missing.into_iter().collect(),
                    });
                }
            }
        }
    })
}

#[test]
fn save_and_load_round_trip_manifest_and_media() {
    let backend = MemoryBackend::new();
    let project = ProjectStore::new(backend.clone());
    let mut media = InMemoryStore::default();
    let bundle = bundle_with_one_layer(&mut media);

    save(&project, &bundle, &media).unwrap();
    let loaded = load(&project).unwrap();

    assert_eq!(loaded.bundle, bundle);
    assert!(loaded.missing_media.is_empty());
    let reference = loaded.bundle.phrase_media[0];
    assert_eq!(loaded.media.0.get(&reference).unwrap().0, vec![0.25, -0.5, 0.75]);
    assert_eq!(block_on(backend.get(MANIFEST_KEY)).unwrap().is_some(), true);
}

#[test]
fn save_uses_human_friendly_entry_names() {
    let backend = MemoryBackend::new();
    let project = ProjectStore::new(backend.clone());
    let mut media = InMemoryStore::default();
    let bundle = bundle_with_one_layer(&mut media);

    save(&project, &bundle, &media).unwrap();

    let mut keys = block_on(backend.list("")).unwrap();
    keys.sort();
    assert_eq!(keys.len(), 2, "one manifest plus one media entry");
    assert_eq!(keys[0], "manifest.cbor");
    assert!(
        keys[1].starts_with("media/") && keys[1].ends_with(".wav"),
        "media entry should be media/<hash>.wav, got {}",
        keys[1]
    );

    let wav = block_on(backend.get(&keys[1])).unwrap().unwrap();
    assert_eq!(&wav[..4], b"RIFF");
    assert_eq!(&wav[8..12], b"WAVE");
}

#[test]
fn save_rejects_manifest_that_references_missing_media() {
    let backend = MemoryBackend::new();
    let project = ProjectStore::new(backend);
    let mut populated = InMemoryStore::default();
    let bundle = bundle_with_one_layer(&mut populated);
    let empty = InMemoryStore::default();

    let error = save(&project, &bundle, &empty).unwrap_err();
    assert!(matches!(error, ProjectStoreError::MissingMedia(_)));
}

#[test]
fn load_keeps_project_when_a_media_blob_is_missing() {
    let backend = MemoryBackend::new();
    let project = ProjectStore::new(backend.clone());
    let mut media = InMemoryStore::default();
    let bundle = bundle_with_one_layer(&mut media);
    block_on(backend.put(MANIFEST_KEY, &bundle.to_bytes())).unwrap();

    let loaded = load(&project).unwrap();
    assert_eq!(loaded.bundle, bundle);
    assert_eq!(loaded.missing_media.len(), 1);
    assert!(loaded.media.0.is_empty());
}

#[test]
fn corrupt_media_is_rejected() {
    let backend = MemoryBackend::new();
    let project = ProjectStore::new(backend.clone());
    let mut media = InMemoryStore::default();
    let bundle = bundle_with_one_layer(&mut media);
    let reference = bundle.phrase_media[0];
    block_on(backend.put(MANIFEST_KEY, &bundle.to_bytes())).unwrap();
    block_on(backend.put(&media_key(reference), b"not audio")).unwrap();

    let error = load(&project).err().unwrap();
    assert!(matches!(error, ProjectStoreError::InvalidMedia { .. }));
}

#[test]
fn save_rejects_a_corrupt_existing_media_blob() {
    let backend = MemoryBackend::new();
    let project = ProjectStore::new(backend.clone());
    let mut media = InMemoryStore::default();
    let bundle = bundle_with_one_layer(&mut media);
    let reference = bundle.phrase_media[0];
    block_on(backend.put(&media_key(reference), b"not audio")).unwrap();

    let error = save(&project, &bundle, &media).unwrap_err();
    assert!(matches!(error, ProjectStoreError::InvalidMedia { .. }));
}

#[test]
fn save_reuses_a_valid_existing_blob_and_writes_only_new_ones() {
    let backend = MemoryBackend::new();
    let project = ProjectStore::new(backend.clone());
    let mut media = InMemoryStore::default();
    let first = media.put(&[0.1, 0.2], 44_100);
    let second = media.put(&[0.3], 44_100);
    let stored = encode(&[0.1, 0.2], 44_100).unwrap();
    block_on(backend.put(&media_key(first), &stored)).unwrap();
    let bundle = Bundle { phrase_media: vec![second, first, second] };

    save(&project, &bundle, &media).unwrap();

    let mut keys = block_on(backend.list("")).unwrap();
    keys.sort();
    assert_eq!(keys.len(), 3);
    assert_eq!(block_on(backend.get(&media_key(first))).unwrap().unwrap(), stored);
    let loaded = load(&project).unwrap();
    assert!(loaded.missing_media.is_empty());
    assert_eq!(loaded.media.0.len(), 2);
}

#[test]
fn save_reports_every_missing_reference_in_order() {
    let project = ProjectStore::new(MemoryBackend::new());
    let a = MediaRef { bytes: [9; 32] };
    let b = MediaRef { bytes: [1; 32] };
    let bundle = Bundle { phrase_media: vec![a, b, a] };
    let error = save(&project, &bundle, &InMemoryStore::default()).unwrap_err();
    match error {
        ProjectStoreError::MissingMedia(missing) => assert_eq!(missing, vec![b, a]),
        other => panic!("unexpected {other:?}"),
    }
    assert!(block_on(project.backend().list("")).unwrap().is_empty());
}

#[test]
fn save_rejects_a_buffer_that_does_not_hash_to_its_reference() {
    let project = ProjectStore::new(MemoryBackend::new());
    let mut media = InMemoryStore::default();
    let reference = media.put(&[0.5], 8_000);
    let wrong = MediaRef { bytes: [7; 32] };
    media.0.insert(wrong, (vec![0.5], 8_000));
    let bundle = Bundle { phrase_media: vec![wrong] };
    let error = save(&project, &bundle, &media).unwrap_err();
    match error {
        ProjectStoreError::MediaHashMismatch { expected, actual } => {
            assert_eq!(expected, wrong);
            assert_eq!(actual, reference);
        }
        other => panic!("unexpected {other:?}"),
    }
}

#[test]
fn load_rejects_a_blob_whose_audio_hashes_elsewhere() {
    let backend = MemoryBackend::new();
    let project = ProjectStore::new(backend.clone());
    let reference = MediaRef { bytes: [3; 32] };
    let bundle = Bundle { phrase_media: vec![reference] };
    block_on(backend.put(MANIFEST_KEY, &bundle.to_bytes())).unwrap();
    block_on(backend.put(&media_key(reference), &encode(&[0.5], 8_000).unwrap())).unwrap();
    let error = load(&project).err().unwrap();
    assert!(matches!(
        error,
        ProjectStoreError::MediaHashMismatch { expected, .. } if expected == reference
    ));
}

#[test]
fn load_without_manifest_fails() {
    let project = ProjectStore::new(MemoryBackend::new());
    assert!(matches!(load(&project).err().unwrap(), ProjectStoreError::MissingManifest));
}

#[test]
fn manifest_lookup_maps_each_answer() {
    assert_eq!(manifest_from_lookup(Ok(Some(vec![1, 2]))).unwrap(), vec![1, 2]);
    assert!(matches!(manifest_from_lookup(Ok(None)), Err(ProjectStoreError::MissingManifest)));
    let failed = manifest_from_lookup(Err(StoreFailure::Backend("disk".to_string())));
    match failed {
        Err(ProjectStoreError::Store(StoreFailure::Backend(m))) => assert_eq!(m, "disk"),
        other => panic!("unexpected {other:?}"),
    }
}

#[test]
fn an_undecodable_manifest_fails_the_load() {
    let backend = MemoryBackend::new();
    let project = ProjectStore::new(backend.clone());
    block_on(backend.put(MANIFEST_KEY, &[1, 2, 3])).unwrap();
    match load(&project).err().unwrap() {
        ProjectStoreError::Manifest(m) => assert_eq!(m, "truncated manifest"),
        other => panic!("unexpected {other:?}"),
    }
    assert!(matches!(manifest_from_decode::<u8>(Ok(4)), Ok(4)));
}

#[test]
fn saving_twice_writes_only_the_manifest_again() {
    let backend = MemoryBackend::new();
    let project = ProjectStore::new(backend.clone());
    let mut media = InMemoryStore::default();
    let bundle = bundle_with_one_layer(&mut media);
    save(&project, &bundle, &media).unwrap();
    let mut before = block_on(backend.list("")).unwrap();
    before.sort();
    let contents: Vec<Vec<u8>> =
        before.iter().map(|k| block_on(backend.get(k)).unwrap().unwrap()).collect();
    save(&project, &bundle, &media).unwrap();
    let mut after = block_on(backend.list("")).unwrap();
    after.sort();
    assert_eq!(after, before);
    let again: Vec<Vec<u8>> =
        after.iter().map(|k| block_on(backend.get(k)).unwrap().unwrap()).collect();
    assert_eq!(again, contents);
}

#[test]
fn media_key_is_the_hex_reference_under_media() {
    let mut bytes = [0u8; 32];
    for (i, b) in bytes.iter_mut().enumerate() {
        *b = (i as u8) * 8 + 7;
    }
    let key = media_key(MediaRef { bytes });
    assert_eq!(
        key,
        "media/070f171f272f373f474f575f676f777f878f979fa7afb7bfc7cfd7dfe7eff7ff.wav"
    );
    assert_eq!(key.len(), 74);
    assert_ne!(key, MANIFEST_KEY);
}

#[test]
fn stored_audio_passes_the_header_check() {
    let wav = encode(&[0.0, 1.0], 22_050).unwrap();
    assert_eq!(inspect_media(&wav), Ok(22_050));
    assert_eq!(decode(&wav).unwrap(), (vec![0.0, 1.0], 22_050));
}

#[test]
fn header_check_names_each_defect() {
    assert_eq!(inspect_media(b"not audio"), Err(MediaDefect::Unreadable));

    let stereo = hound::WavSpec {
        channels: 2,
        sample_rate: 8_000,
        bits_per_sample: 32,
        sample_format: hound::SampleFormat::Float,
    };
    let mut cursor = Cursor::new(Vec::new());
    let mut w = hound::WavWriter::new(&mut cursor, stereo).unwrap();
    w.write_sample(0.5f32).unwrap();
    w.write_sample(0.5f32).unwrap();
    w.finalize().unwrap();
    assert_eq!(inspect_media(&cursor.into_inner()), Err(MediaDefect::NotMono));

    let ints = hound::WavSpec {
        channels: 1,
        sample_rate: 8_000,
        bits_per_sample: 16,
        sample_format: hound::SampleFormat::Int,
    };
    let mut cursor = Cursor::new(Vec::new());
    let mut w = hound::WavWriter::new(&mut cursor, ints).unwrap();
    w.write_sample(3i16).unwrap();
    w.finalize().unwrap();
    assert_eq!(inspect_media(&cursor.into_inner()), Err(MediaDefect::NotFloat32));
}

#[test]
fn save_steps_report_encoder_and_manifest_failures() {
    let reference = MediaRef { bytes: [4; 32] };
    let run = SavePlan::new(&vec![reference]).check_media(&vec![true]).unwrap();
    let step = match run.next_step() {
        SaveStep::Media(step) => step,
        SaveStep::Manifest(_) => panic!("a reference is pending"),
    };
    assert_eq!(step.reference(), reference);
    let lookup = step.check_buffer(reference).unwrap();
    assert_eq!(lookup.key(), &media_key(reference));
    let encode = match lookup.on_lookup(Ok(None)).unwrap() {
        SaveFound::Absent(encode) => encode,
        SaveFound::Existing(..) => panic!("nothing is stored"),
    };
    match encode.on_encoded(Err("disk full".to_string())) {
        Err(ProjectStoreError::MediaEncode(m)) => assert_eq!(m, "disk full"),
        _ => panic!("expected an encoding failure"),
    }

    let run = SavePlan::new(&vec![]).check_media(&vec![]).unwrap();
    let manifest = match run.next_step() {
        SaveStep::Manifest(m) => m,
        SaveStep::Media(_) => panic!("no references"),
    };
    match manifest.finish(Err("bad cbor".to_string())) {
        Err(ProjectStoreError::Manifest(m)) => assert_eq!(m, "bad cbor"),
        _ => panic!("expected a manifest failure"),
    }
}

#[test]
fn save_batch_ends_with_the_manifest() {
    let a = MediaRef { bytes: [2; 32] };
    let mut run = SavePlan::new(&vec![a]).check_media(&vec![true]).unwrap();
    run = match run.next_step() {
        SaveStep::Media(step) => match step.check_buffer(a).unwrap().on_lookup(Ok(None)).unwrap() {
            SaveFound::Absent(encode) => encode.on_encoded(Ok(vec![1, 2, 3])).unwrap(),
            SaveFound::Existing(..) => panic!("nothing is stored"),
        },
        SaveStep::Manifest(_) => panic!("a reference is pending"),
    };
    let writes = match run.next_step() {
        SaveStep::Manifest(m) => m.finish(Ok(vec![9])).unwrap(),
        SaveStep::Media(_) => panic!("all references handled"),
    };
    assert_eq!(writes.len(), 2);
    assert_eq!(writes[0].key, media_key(a));
    assert_eq!(writes[0].value, vec![1, 2, 3]);
    assert_eq!(writes[1].key, "manifest.cbor");
    assert_eq!(writes[1].value, vec![9]);
}
