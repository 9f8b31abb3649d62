//! Durable project storage over a host-supplied byte backend.
//!
//! The manifest lives at `manifest.cbor` and each captured phrase at
//! `media/<hash>.wav`, so a zip-backed project opens in any unzip tool.
//! Media is immutable and content-addressed: the reference is checked
//! against the decoded audio, never the file bytes.
//!
//! A save or load alternates backend reads with decisions. The decisions
//! stand here as runs that move from step to step: the host performs the
//! read, encode or decode a step asks for and hands the outcome to the next
//! step, until the run ends in a write batch, a load result, or an error.

use vstd::prelude::*;

use crate::error::{ProjectStoreError, StoreFailure};
use crate::media_format::{defect_reason, MediaDefect};
use crate::media_ref::{
    lemma_ref_lt_asymmetric, lemma_ref_lt_irreflexive, lemma_sorted_no_duplicates,
    referenced_media, ref_equal, ref_lt, sorted_refs, MediaRef,
};
use crate::text::{
    hex_digit, hex_text, is_hex_char, lemma_hex_text_chars, lemma_hex_text_index, lemma_hex_text_injective, lemma_hex_text_len,
    push_hex_prefix, push_str,
};

verus! {

/// The manifest entry name of one project archive.
pub const MANIFEST_KEY: &'static str = "manifest.cbor";

/// The manifest entry name of one project archive.
pub open spec fn manifest_key_text() -> Seq<char> {
    "manifest.cbor"@
}

/// The entry name of a media blob: `media/`, the reference's 64 lowercase
/// hex digits, `.wav`.
pub open spec fn media_key_text(r: MediaRef) -> Seq<char> {
    "media/"@ + hex_text(r.bytes@) + ".wav"@
}

/// The entry name of the blob that `reference` names.
pub fn media_key(reference: MediaRef) -> (k: String)
    ensures
        k@ == media_key_text(reference),
        k@.len() == 74,
        k@.take(6) == "media/"@,
        k@.subrange(6, 70) == hex_text(reference.bytes@),
        k@.skip(70) == ".wav"@,
{
    let mut key = String::new();
    push_str(&mut key, "media/");
    let bytes: &[u8] = reference.bytes.as_slice();
    push_hex_prefix(&mut key, bytes, 32);
    push_str(&mut key, ".wav");
    assert(reference.bytes@.take(32) =~= reference.bytes@);
    proof {
        lemma_media_key_names_the_hash(reference);
    }
    key
}

/// A media entry is named by the reference's own bytes: `media/`, then for
/// each byte `i` its high and low lowercase hex digits at characters
/// `6 + 2i` and `7 + 2i`, then `.wav`.
pub proof fn lemma_media_key_names_the_hash(r: MediaRef)
    ensures
        media_key_text(r).len() == 74,
        media_key_text(r).take(6) == "media/"@,
        media_key_text(r).subrange(6, 70) == hex_text(r.bytes@),
        media_key_text(r).skip(70) == ".wav"@,
        forall|i: int|
            0 <= i < 32 ==> media_key_text(r)[6 + 2 * i] == hex_digit(#[trigger] r.bytes@[i] as int
                / 16) && media_key_text(r)[7 + 2 * i] == hex_digit(r.bytes@[i] as int % 16),
{
    reveal_strlit("media/");
    reveal_strlit(".wav");
    let key = media_key_text(r);
    let h = hex_text(r.bytes@);
    lemma_hex_text_len(r.bytes@);
    assert(key.len() == 74);
    assert(key.take(6) =~= "media/"@);
    assert(key.subrange(6, 70) =~= h);
    assert(key.skip(70) =~= ".wav"@);
    assert forall|i: int| 0 <= i < 32 implies key[6 + 2 * i] == hex_digit(
        #[trigger] r.bytes@[i] as int / 16,
    ) && key[7 + 2 * i] == hex_digit(r.bytes@[i] as int % 16) by {
        lemma_hex_text_index(r.bytes@, i);
        assert(key[6 + 2 * i] == h[2 * i]);
        assert(key[7 + 2 * i] == h[2 * i + 1]);
    }
}

/// A media key is 74 characters: the `media/` directory, 64 lowercase hex
/// digits, the `.wav` extension.
pub proof fn lemma_media_key_shape(r: MediaRef)
    ensures
        media_key_text(r).len() == 74,
        media_key_text(r).take(6) == "media/"@,
        media_key_text(r).skip(70) == ".wav"@,
        forall|k: int| 6 <= k < 70 ==> is_hex_char(#[trigger] media_key_text(r)[k]),
{
    reveal_strlit("media/");
    reveal_strlit(".wav");
    lemma_hex_text_len(r.bytes@);
    lemma_hex_text_chars(r.bytes@);
    assert forall|k: int| 6 <= k < 70 implies is_hex_char(#[trigger] media_key_text(r)[k]) by {
        assert(media_key_text(r)[k] == hex_text(r.bytes@)[k - 6]);
    }
    assert(media_key_text(r).take(6) =~= "media/"@);
    assert(media_key_text(r).skip(70) =~= ".wav"@);
}

/// Distinct references have distinct entry names.
pub proof fn lemma_media_key_injective(r1: MediaRef, r2: MediaRef)
    requires
        media_key_text(r1) == media_key_text(r2),
    ensures
        r1 == r2,
{
    reveal_strlit("media/");
    reveal_strlit(".wav");
    lemma_hex_text_len(r1.bytes@);
    lemma_hex_text_len(r2.bytes@);
    let k1 = media_key_text(r1);
    let k2 = media_key_text(r2);
    assert(hex_text(r1.bytes@) =~= k1.subrange(6, 70));
    assert(hex_text(r2.bytes@) =~= k2.subrange(6, 70));
    lemma_hex_text_injective(r1.bytes@, r2.bytes@);
    assert(r1.bytes == r2.bytes);
}

/// No media entry is named like the manifest.
pub proof fn lemma_media_key_not_manifest(r: MediaRef)
    ensures
        media_key_text(r) != manifest_key_text(),
{
    reveal_strlit("manifest.cbor");
    lemma_media_key_shape(r);
}

/// Project storage over a host-selected byte backend.
pub struct ProjectStore<B> {
    backend: B,
}

impl<B> ProjectStore<B> {
    /// A store over `backend`.
    pub fn new(backend: B) -> (r: Self)
        ensures
            r.backend_spec() == backend,
    {
        ProjectStore { backend }
    }

    /// The backend this store writes to.
    pub closed spec fn backend_spec(&self) -> B {
        self.backend
    }

    /// The backend this store writes to.
    pub fn backend(&self) -> (r: &B)
        ensures
            *r == self.backend_spec(),
    {
        &self.backend
    }
}

/// One write of a save batch: `value` stored at `key`.
pub struct PendingWrite {
    pub key: String,
    pub value: Vec<u8>,
}

/// The keys of a write batch, in order.
pub open spec fn write_keys(ws: Seq<PendingWrite>) -> Seq<Seq<char>> {
    ws.map_values(|w: PendingWrite| w.key@)
}

/// The references whose flag is false, in order: the blobs a save must
/// write (flag: already stored) or a load reports missing (flag: found).
pub open spec fn unflagged(refs: Seq<MediaRef>, flags: Seq<bool>) -> Seq<MediaRef>
    decreases refs.len(),
{
    if refs.len() == 0 || flags.len() == 0 {
        Seq::empty()
    } else {
        let rest = unflagged(refs.drop_last(), flags.drop_last());
        if flags.last() {
            rest
        } else {
            rest.push(refs.last())
        }
    }
}

/// The entry names a save writes media to, in order.
pub open spec fn blob_keys(refs: Seq<MediaRef>, stored: Seq<bool>) -> Seq<Seq<char>> {
    unflagged(refs, stored).map_values(|r: MediaRef| media_key_text(r))
}

/// Every reference `unflagged` keeps is one of `refs`, with a false flag.
pub proof fn lemma_unflagged_members(refs: Seq<MediaRef>, flags: Seq<bool>)
    requires
        refs.len() == flags.len(),
    ensures
        forall|k: int| 0 <= k < unflagged(refs, flags).len() ==> exists|i: int|
            0 <= i < refs.len() && refs[i] == #[trigger] unflagged(refs, flags)[k] && !flags[i],
    decreases refs.len(),
{
    if refs.len() > 0 {
        let rest = unflagged(refs.drop_last(), flags.drop_last());
        lemma_unflagged_members(refs.drop_last(), flags.drop_last());
        assert forall|k: int| 0 <= k < unflagged(refs, flags).len() implies exists|i: int|
            0 <= i < refs.len() && refs[i] == #[trigger] unflagged(refs, flags)[k] && !flags[i] by {
            if k < rest.len() {
                let i = choose|i: int|
                    0 <= i < refs.drop_last().len() && refs.drop_last()[i] == #[trigger] rest[k]
                        && !flags.drop_last()[i];
                assert(refs[i] == unflagged(refs, flags)[k] && !flags[i]);
            } else {
                assert(refs[refs.len() - 1] == unflagged(refs, flags)[k]);
            }
        }
    }
}

/// `unflagged` keeps ascending references ascending.
pub proof fn lemma_unflagged_sorted(refs: Seq<MediaRef>, flags: Seq<bool>)
    requires
        refs.len() == flags.len(),
        sorted_refs(refs),
    ensures
        sorted_refs(unflagged(refs, flags)),
    decreases refs.len(),
{
    if refs.len() > 0 {
        let pre = refs.drop_last();
        let rest = unflagged(pre, flags.drop_last());
        assert(sorted_refs(pre)) by {
            assert forall|i: int, j: int| 0 <= i < j < pre.len() implies ref_lt(
                #[trigger] pre[i],
                #[trigger] pre[j],
            ) by {
                assert(pre[i] == refs[i] && pre[j] == refs[j]);
            }
        }
        lemma_unflagged_sorted(pre, flags.drop_last());
        lemma_unflagged_members(pre, flags.drop_last());
        if !flags.last() {
            let out = rest.push(refs.last());
            assert forall|i: int, j: int| 0 <= i < j < out.len() implies ref_lt(
                #[trigger] out[i],
                #[trigger] out[j],
            ) by {
                if j < rest.len() {
                    assert(out[i] == rest[i] && out[j] == rest[j]);
                } else {
                    assert(out[i] == rest[i]);
                    let k = choose|k: int|
                        0 <= k < pre.len() && pre[k] == #[trigger] rest[i] && !flags.drop_last()[k];
                    assert(refs[k] == rest[i]);
                    assert(ref_lt(refs[k], refs[refs.len() - 1]));
                }
            }
        }
    }
}

/// With every flag set, nothing is kept.
pub proof fn lemma_unflagged_all_set(refs: Seq<MediaRef>, flags: Seq<bool>)
    requires
        refs.len() == flags.len(),
        forall|i: int| 0 <= i < flags.len() ==> #[trigger] flags[i],
    ensures
        unflagged(refs, flags) == Seq::<MediaRef>::empty(),
    decreases refs.len(),
{
    if refs.len() > 0 {
        lemma_unflagged_all_set(refs.drop_last(), flags.drop_last());
        assert(flags[flags.len() - 1]);
    }
}

/// With some flag clear, something is kept.
pub proof fn lemma_unflagged_some_clear(refs: Seq<MediaRef>, flags: Seq<bool>, i: int)
    requires
        refs.len() == flags.len(),
        0 <= i < flags.len(),
        !flags[i],
    ensures
        unflagged(refs, flags).len() > 0,
    decreases refs.len(),
{
    if i < refs.len() - 1 {
        lemma_unflagged_some_clear(refs.drop_last(), flags.drop_last(), i);
    }
}

/// Extending the processed prefix by one reference extends `unflagged` by
/// that reference exactly when its flag is clear.
proof fn lemma_unflagged_step(refs: Seq<MediaRef>, flags: Seq<bool>, n: int, flag: bool)
    requires
        0 <= n < refs.len(),
        flags.len() == n,
    ensures
        unflagged(refs.take(n + 1), flags.push(flag)) == if flag {
            unflagged(refs.take(n), flags)
        } else {
            unflagged(refs.take(n), flags).push(refs[n])
        },
{
    assert(refs.take(n + 1).drop_last() =~= refs.take(n));
    assert(flags.push(flag).drop_last() =~= flags);
}

/// The save batch: a put for every referenced blob the backend lacks, in
/// reference order, then the manifest. Its keys are pairwise distinct, the
/// manifest key stands last and only there, and every other key is the
/// entry name of a reference the backend did not already hold.
pub proof fn lemma_save_batch_keys(refs: Seq<MediaRef>, stored: Seq<bool>)
    requires
        refs.len() == stored.len(),
        sorted_refs(refs),
    ensures
        blob_keys(refs, stored).push(manifest_key_text()).no_duplicates(),
        blob_keys(refs, stored).push(manifest_key_text()).last() == manifest_key_text(),
        forall|k: int| 0 <= k < blob_keys(refs, stored).len() ==> exists|i: int|
            0 <= i < refs.len() && !stored[i] && #[trigger] blob_keys(refs, stored)[k]
                == media_key_text(refs[i]),
{
    let kept = unflagged(refs, stored);
    let keys = blob_keys(refs, stored);
    let all = keys.push(manifest_key_text());
    lemma_unflagged_sorted(refs, stored);
    lemma_sorted_no_duplicates(kept);
    lemma_unflagged_members(refs, stored);
    assert forall|a: int, b: int| 0 <= a < all.len() && 0 <= b < all.len() && a != b implies all[a]
        != all[b] by {
        if a < keys.len() && b < keys.len() {
            if all[a] == all[b] {
                lemma_media_key_injective(kept[a], kept[b]);
            }
        } else if a < keys.len() {
            lemma_media_key_not_manifest(kept[a]);
        } else if b < keys.len() {
            lemma_media_key_not_manifest(kept[b]);
        }
    }
    assert forall|k: int| 0 <= k < keys.len() implies exists|i: int|
        0 <= i < refs.len() && !stored[i] && #[trigger] keys[k] == media_key_text(refs[i]) by {
        let i = choose|i: int| 0 <= i < refs.len() && refs[i] == #[trigger] kept[k] && !stored[i];
        assert(keys[k] == media_key_text(refs[i]));
    }
}

/// After a save's batch lands, every referenced blob has an entry: it was
/// stored already, or the batch puts it.
pub proof fn lemma_save_covers_every_reference(refs: Seq<MediaRef>, stored: Seq<bool>)
    requires
        refs.len() == stored.len(),
    ensures
        forall|i: int|
            0 <= i < refs.len() ==> stored[i] || blob_keys(refs, stored).contains(
                media_key_text(#[trigger] refs[i]),
            ),
    decreases refs.len(),
{
    if refs.len() > 0 {
        let pre = refs.drop_last();
        lemma_save_covers_every_reference(pre, stored.drop_last());
        let rest = unflagged(pre, stored.drop_last());
        let keys = blob_keys(refs, stored);
        let pre_keys = blob_keys(pre, stored.drop_last());
        assert forall|i: int| 0 <= i < refs.len() implies stored[i] || keys.contains(
            media_key_text(#[trigger] refs[i]),
        ) by {
            if !stored[i] {
                if i < refs.len() - 1 {
                    assert(pre[i] == refs[i] && stored.drop_last()[i] == stored[i]);
                    let k = choose|k: int|
                        0 <= k < pre_keys.len() && pre_keys[k] == media_key_text(pre[i]);
                    if stored.last() {
                        assert(keys =~= pre_keys);
                    } else {
                        assert(keys[k] == pre_keys[k]);
                    }
                } else {
                    assert(keys[keys.len() - 1] == media_key_text(refs[i]));
                }
            }
        }
    }
}

/// Two ascending reference sequences over one set are the same sequence,
/// so a save and a load of one manifest visit the same references in the
/// same order.
pub proof fn lemma_sorted_refs_unique(a: Seq<MediaRef>, b: Seq<MediaRef>)
    requires
        sorted_refs(a),
        sorted_refs(b),
        a.to_set() == b.to_set(),
    ensures
        a == b,
    decreases a.len(),
{
    if a.len() == 0 {
        if b.len() > 0 {
            assert(b.to_set().contains(b[0]));
        }
    } else if b.len() == 0 {
        assert(a.to_set().contains(a[0]));
    } else {
        assert(a.to_set().contains(a[0]));
        assert(b.to_set().contains(b[0]));
        let i = choose|i: int| 0 <= i < b.len() && b[i] == a[0];
        let j = choose|j: int| 0 <= j < a.len() && a[j] == b[0];
        if i > 0 {
            assert(ref_lt(b[0], b[i]));
            if j > 0 {
                assert(ref_lt(a[0], a[j]));
                lemma_ref_lt_asymmetric(a[0], b[0]);
            } else {
                lemma_ref_lt_irreflexive(b[0]);
            }
        }
        assert(a[0] == b[0]);
        let a1 = a.drop_first();
        let b1 = b.drop_first();
        assert(sorted_refs(a1)) by {
            assert forall|x: int, y: int| 0 <= x < y < a1.len() implies ref_lt(
                #[trigger] a1[x],
                #[trigger] a1[y],
            ) by {
                assert(a1[x] == a[x + 1] && a1[y] == a[y + 1]);
            }
        }
        assert(sorted_refs(b1)) by {
            assert forall|x: int, y: int| 0 <= x < y < b1.len() implies ref_lt(
                #[trigger] b1[x],
                #[trigger] b1[y],
            ) by {
                assert(b1[x] == b[x + 1] && b1[y] == b[y + 1]);
            }
        }
        assert forall|r: MediaRef| a1.to_set().contains(r) <==> #[trigger] b1.to_set().contains(
            r,
        ) by {
            if a1.to_set().contains(r) {
                let x = choose|x: int| 0 <= x < a1.len() && a1[x] == r;
                assert(a[x + 1] == r);
                assert(ref_lt(a[0], a[x + 1]));
                assert(a.to_set().contains(r));
                let y = choose|y: int| 0 <= y < b.len() && b[y] == r;
                if y == 0 {
                    lemma_ref_lt_irreflexive(r);
                }
                assert(b1[y - 1] == r);
            }
            if b1.to_set().contains(r) {
                let x = choose|x: int| 0 <= x < b1.len() && b1[x] == r;
                assert(b[x + 1] == r);
                assert(ref_lt(b[0], b[x + 1]));
                assert(b.to_set().contains(r));
                let y = choose|y: int| 0 <= y < a.len() && a[y] == r;
                if y == 0 {
                    lemma_ref_lt_irreflexive(r);
                }
                assert(a1[y - 1] == r);
            }
        }
        assert(a1.to_set() =~= b1.to_set());
        lemma_sorted_refs_unique(a1, b1);
        assert(a =~= seq![a[0]] + a1);
        assert(b =~= seq![b[0]] + b1);
    }
}

// ---------------------------------------------------------------- saving

/// The start of a save: the references its manifest names, ascending and
/// each once.
pub struct SavePlan {
    references: Vec<MediaRef>,
}

impl SavePlan {
    #[verifier::type_invariant]
    spec fn inv(self) -> bool {
        sorted_refs(self.references@)
    }

    /// The references the save covers.
    pub closed spec fn refs(self) -> Seq<MediaRef> {
        self.references@
    }

    /// Plans a save of a manifest whose phrases name `phrase_media`.
    pub fn new(phrase_media: &Vec<MediaRef>) -> (p: SavePlan)
        ensures
            sorted_refs(p.refs()),
            p.refs().to_set() == phrase_media@.to_set(),
    {
        SavePlan { references: referenced_media(phrase_media) }
    }

    /// The references the save covers, ascending.
    pub fn references(&self) -> (r: &Vec<MediaRef>)
        ensures
            r@ == self.refs(),
            sorted_refs(r@),
    {
        proof {
            use_type_invariant(self);
        }
        &self.references
    }

    /// Refuses the save when the caller's media store lacks any referenced
    /// blob (`available[i]` says whether it holds reference `i`), reporting
    /// exactly the lacking references; otherwise starts the per-reference
    /// work. Nothing is read or written on refusal.
    pub fn check_media(self, available: &Vec<bool>) -> (r: Result<SaveRun, ProjectStoreError>)
        requires
            available@.len() == self.refs().len(),
        ensures
            r is Err <==> exists|i: int| 0 <= i < available@.len() && !available@[i],
            r matches Err(e) ==> e matches ProjectStoreError::MissingMedia(v) && v@ == unflagged(
                self.refs(),
                available@,
            ) && sorted_refs(v@),
            r matches Ok(run) ==> run.refs() == self.refs() && run.stored() == Seq::<bool>::empty()
                && run.pending() == Seq::<PendingWrite>::empty(),
    {
        proof {
            use_type_invariant(&self);
        }
        let n = self.references.len();
        let mut missing: Vec<MediaRef> = Vec::new();
        let mut i: usize = 0;
        while i < n
            invariant
                n == self.references@.len() == available@.len(),
                i <= n,
                missing@ == unflagged(self.references@.take(i as int), available@.take(i as int)),
            decreases n - i,
        {
            proof {
                lemma_unflagged_step(self.references@, available@.take(i as int), i as int, available@[i as int]);
                assert(available@.take(i as int).push(available@[i as int]) =~= available@.take(i + 1));
            }
            if !available[i] {
                missing.push(self.references[i]);
            }
            i = i + 1;
        }
        assert(self.references@.take(n as int) =~= self.references@);
        assert(available@.take(n as int) =~= available@);
        proof {
            lemma_unflagged_sorted(self.references@, available@);
        }
        if missing.len() > 0 {
            proof {
                if forall|i: int| 0 <= i < available@.len() ==> #[trigger] available@[i] {
                    lemma_unflagged_all_set(self.references@, available@);
                }
            }
            Err(ProjectStoreError::MissingMedia(missing))
        } else {
            proof {
                if exists|i: int| 0 <= i < available@.len() && !available@[i] {
                    let i = choose|i: int| 0 <= i < available@.len() && !available@[i];
                    lemma_unflagged_some_clear(self.references@, available@, i);
                }
            }
            let SavePlan { references } = self;
            let writes: Vec<PendingWrite> = Vec::new();
            assert(references@.take(0) =~= Seq::<MediaRef>::empty());
            assert(write_keys(writes@) =~= Seq::<Seq<char>>::empty());
            assert(blob_keys(references@.take(0), Seq::empty()) =~= Seq::<Seq<char>>::empty());
            let run = SaveRun { references, next: 0, writes, stored_flags: Ghost(Seq::empty()) };
            Ok(run)
        }
    }
}

/// A save between references: `stored()` records, for each reference
/// handled so far, whether the backend already held its blob, and
/// `pending()` holds the puts collected for the others.
pub struct SaveRun {
    references: Vec<MediaRef>,
    next: usize,
    writes: Vec<PendingWrite>,
    stored_flags: Ghost<Seq<bool>>,
}

/// What a save does next.
pub enum SaveStep {
    /// Check the next referenced blob.
    Media(SaveMedia),
    /// Every blob is handled: encode the manifest.
    Manifest(SaveManifest),
}

impl SaveRun {
    #[verifier::type_invariant]
    spec fn inv(self) -> bool {
        &&& sorted_refs(self.references@)
        &&& self.next == self.stored_flags@.len()
        &&& self.next <= self.references@.len()
        &&& write_keys(self.writes@) == blob_keys(
            self.references@.take(self.next as int),
            self.stored_flags@,
        )
    }

    /// The references the save covers, ascending.
    pub closed spec fn refs(self) -> Seq<MediaRef> {
        self.references@
    }

    /// For each reference handled so far, whether the backend held it.
    pub closed spec fn stored(self) -> Seq<bool> {
        self.stored_flags@
    }

    /// The puts collected so far.
    pub closed spec fn pending(self) -> Seq<PendingWrite> {
        self.writes@
    }

    /// Moves to the next reference, or to the manifest once all are handled.
    pub fn next_step(self) -> (s: SaveStep)
        ensures
            s matches SaveStep::Media(m) ==> self.stored().len() < self.refs().len() && m.run_spec()
                == self,
            s matches SaveStep::Manifest(m) ==> self.stored().len() == self.refs().len()
                && m.run_spec() == self,
    {
        proof {
            use_type_invariant(&self);
        }
        if self.next < self.references.len() {
            SaveStep::Media(SaveMedia { run: self })
        } else {
            SaveStep::Manifest(SaveManifest { run: self })
        }
    }
}

/// A save at one reference, before its buffer is checked.
pub struct SaveMedia {
    run: SaveRun,
}

/// The reference a save is at.
pub open spec fn current_ref(run: SaveRun) -> MediaRef {
    run.refs()[run.stored().len() as int]
}

impl SaveMedia {
    #[verifier::type_invariant]
    spec fn inv(self) -> bool {
        self.run.next < self.run.references@.len()
    }

    /// The run this step belongs to.
    pub closed spec fn run_spec(self) -> SaveRun {
        self.run
    }

    /// The reference to check.
    pub fn reference(&self) -> (r: MediaRef)
        ensures
            r == current_ref(self.run_spec()),
    {
        proof {
            use_type_invariant(self);
            use_type_invariant(&self.run);
        }
        self.run.references[self.run.next]
    }

    /// Checks the hash of the caller's buffer for this reference: a
    /// mismatch ends the save; otherwise the backend is asked for the
    /// blob's entry.
    pub fn check_buffer(self, actual: MediaRef) -> (r: Result<SaveLookup, ProjectStoreError>)
        ensures
            actual != current_ref(self.run_spec()) ==> r == Err::<SaveLookup, ProjectStoreError>(
                ProjectStoreError::MediaHashMismatch {
                    expected: current_ref(self.run_spec()),
                    actual,
                },
            ),
            actual == current_ref(self.run_spec()) ==> (r matches Ok(l) && l.run_spec()
                == self.run_spec()),
    {
        proof {
            use_type_invariant(&self);
            use_type_invariant(&self.run);
        }
        let expected = self.run.references[self.run.next];
        if !ref_equal(&expected, &actual) {
            return Err(ProjectStoreError::MediaHashMismatch { expected, actual });
        }
        let key = media_key(expected);
        Ok(SaveLookup { run: self.run, key })
    }
}

/// A save waiting for the backend's read of one blob's entry.
pub struct SaveLookup {
    run: SaveRun,
    key: String,
}

/// What a save found at a blob's entry.
pub enum SaveFound {
    /// A blob is stored: decode these bytes and verify their hash.
    Existing(SaveVerify, Vec<u8>),
    /// Nothing is stored: encode the buffer.
    Absent(SaveEncode),
}

impl SaveLookup {
    #[verifier::type_invariant]
    spec fn inv(self) -> bool {
        &&& self.run.next < self.run.references@.len()
        &&& self.key@ == media_key_text(self.run.references@[self.run.next as int])
    }

    /// The run this step belongs to.
    pub closed spec fn run_spec(self) -> SaveRun {
        self.run
    }

    /// The entry to read: the current reference's media key.
    pub fn key(&self) -> (k: &String)
        ensures
            k@ == media_key_text(current_ref(self.run_spec())),
    {
        proof {
            use_type_invariant(self);
            use_type_invariant(&self.run);
        }
        &self.key
    }

    /// Takes the backend's answer for the entry: a failure ends the save,
    /// stored bytes must be verified, an absent entry gets a fresh blob.
    pub fn on_lookup(self, found: Result<Option<Vec<u8>>, StoreFailure>) -> (r: Result<
        SaveFound,
        ProjectStoreError,
    >)
        ensures
            found matches Err(e) ==> r == Err::<SaveFound, ProjectStoreError>(
                ProjectStoreError::Store(e),
            ),
            found matches Ok(Some(bytes)) ==> r matches Ok(SaveFound::Existing(v, b)) && b == bytes
                && v.run_spec() == self.run_spec(),
            found matches Ok(None) ==> r matches Ok(SaveFound::Absent(e)) && e.run_spec()
                == self.run_spec(),
    {
        proof {
            use_type_invariant(&self);
        }
        match found {
            Err(e) => Err(ProjectStoreError::Store(e)),
            Ok(Some(bytes)) => Ok(SaveFound::Existing(SaveVerify { run: self.run }, bytes)),
            Ok(None) => Ok(SaveFound::Absent(SaveEncode { run: self.run, key: self.key })),
        }
    }
}

/// A save waiting for the decode of a blob the backend already holds.
pub struct SaveVerify {
    run: SaveRun,
}

impl SaveVerify {
    #[verifier::type_invariant]
    spec fn inv(self) -> bool {
        self.run.next < self.run.references@.len()
    }

    /// The run this step belongs to.
    pub closed spec fn run_spec(self) -> SaveRun {
        self.run
    }

    /// Takes the decode of the stored blob: its defect, or the hash of its
    /// decoded audio. A defect or a hash other than the reference ends the
    /// save; otherwise the stored blob is reused and nothing is written for
    /// it.
    pub fn on_decoded(self, decoded: Result<MediaRef, MediaDefect>) -> (r: Result<
        SaveRun,
        ProjectStoreError,
    >)
        ensures
            match decoded {
                Err(d) => r matches Err(ProjectStoreError::InvalidMedia { reference, reason })
                    && reference == current_ref(self.run_spec()) && reason@ == defect_reason(d),
                Ok(h) => if h != current_ref(self.run_spec()) {
                    r == Err::<SaveRun, ProjectStoreError>(
                        ProjectStoreError::MediaHashMismatch {
                            expected: current_ref(self.run_spec()),
                            actual: h,
                        },
                    )
                } else {
                    r matches Ok(next) && next.refs() == self.run_spec().refs() && next.stored()
                        == self.run_spec().stored().push(true) && next.pending()
                        == self.run_spec().pending()
                },
            },
    {
        proof {
            use_type_invariant(&self);
            use_type_invariant(&self.run);
        }
        let expected = self.run.references[self.run.next];
        match decoded {
            Err(d) => Err(ProjectStoreError::InvalidMedia { reference: expected, reason: d.reason() }),
            Ok(actual) => {
                if !ref_equal(&expected, &actual) {
                    return Err(ProjectStoreError::MediaHashMismatch { expected, actual });
                }
                let SaveRun { references, next, writes, stored_flags } = self.run;
                assert(next < references.len());
                proof {
                    lemma_unflagged_step(references@, stored_flags@, next as int, true);
                }
                Ok(
                    SaveRun {
                        references,
                        next: next + 1,
                        writes,
                        stored_flags: Ghost(stored_flags@.push(true)),
                    },
                )
            },
        }
    }
}

/// A save waiting for the encoding of a blob the backend lacks.
pub struct SaveEncode {
    run: SaveRun,
    key: String,
}

impl SaveEncode {
    #[verifier::type_invariant]
    spec fn inv(self) -> bool {
        &&& self.run.next < self.run.references@.len()
        &&& self.key@ == media_key_text(self.run.references@[self.run.next as int])
    }

    /// The run this step belongs to.
    pub closed spec fn run_spec(self) -> SaveRun {
        self.run
    }

    /// Takes the encoding of the caller's buffer: a failure ends the save;
    /// otherwise a put of the encoded bytes at the blob's entry joins the
    /// batch.
    pub fn on_encoded(self, encoded: Result<Vec<u8>, String>) -> (r: Result<
        SaveRun,
        ProjectStoreError,
    >)
        ensures
            encoded matches Err(m) ==> r == Err::<SaveRun, ProjectStoreError>(
                ProjectStoreError::MediaEncode(m),
            ),
            encoded matches Ok(bytes) ==> r matches Ok(next) && next.refs()
                == self.run_spec().refs() && next.stored() == self.run_spec().stored().push(false)
                && next.pending().len() == self.run_spec().pending().len() + 1
                && next.pending().drop_last() == self.run_spec().pending()
                && next.pending().last().key@ == media_key_text(current_ref(self.run_spec()))
                && next.pending().last().value == bytes,
    {
        proof {
            use_type_invariant(&self);
            use_type_invariant(&self.run);
        }
        match encoded {
            Err(m) => Err(ProjectStoreError::MediaEncode(m)),
            Ok(value) => {
                let SaveEncode { run, key } = self;
                let SaveRun { references, next, mut writes, stored_flags } = run;
                assert(next < references.len());
                let ghost old_writes = writes@;
                writes.push(PendingWrite { key, value });
                proof {
                    lemma_unflagged_step(references@, stored_flags@, next as int, false);
                    let kept = unflagged(references@.take(next as int), stored_flags@);
                    assert(write_keys(writes@) =~= write_keys(old_writes).push(
                        media_key_text(references@[next as int]),
                    ));
                    assert(kept.push(references@[next as int]).map_values(
                        |r: MediaRef| media_key_text(r),
                    ) =~= kept.map_values(|r: MediaRef| media_key_text(r)).push(
                        media_key_text(references@[next as int]),
                    ));
                    assert(writes@.drop_last() =~= old_writes);
                }
                Ok(
                    SaveRun {
                        references,
                        next: next + 1,
                        writes,
                        stored_flags: Ghost(stored_flags@.push(false)),
                    },
                )
            },
        }
    }
}

/// A save with every blob handled, waiting for the encoded manifest.
pub struct SaveManifest {
    run: SaveRun,
}

impl SaveManifest {
    #[verifier::type_invariant]
    spec fn inv(self) -> bool {
        self.run.next == self.run.references@.len()
    }

    /// The run this step belongs to.
    pub closed spec fn run_spec(self) -> SaveRun {
        self.run
    }

    /// Takes the encoded manifest: a codec failure ends the save; otherwise
    /// the batch is complete. The batch holds a put for every referenced
    /// blob the backend lacked, in reference order, with the bytes handed
    /// over for it, and then the manifest put; `lemma_save_batch_keys`
    /// gives its key shape.
    pub fn finish(self, manifest: Result<Vec<u8>, String>) -> (r: Result<
        Vec<PendingWrite>,
        ProjectStoreError,
    >)
        ensures
            manifest matches Err(m) ==> r == Err::<Vec<PendingWrite>, ProjectStoreError>(
                ProjectStoreError::Manifest(m),
            ),
            manifest matches Ok(bytes) ==> r matches Ok(ws) && ws@.drop_last()
                == self.run_spec().pending() && ws@.len() == self.run_spec().pending().len() + 1
                && ws@.last().key@ == manifest_key_text() && ws@.last().value == bytes
                && write_keys(ws@) == blob_keys(self.run_spec().refs(), self.run_spec().stored()).push(
                manifest_key_text(),
            ),
    {
        proof {
            use_type_invariant(&self);
            use_type_invariant(&self.run);
        }
        match manifest {
            Err(m) => Err(ProjectStoreError::Manifest(m)),
            Ok(value) => {
                let SaveRun { references, next, mut writes, stored_flags } = self.run;
                let ghost old_writes = writes@;
                let key = String::from_str(MANIFEST_KEY);
                proof {
                    reveal_strlit("manifest.cbor");
                }
                writes.push(PendingWrite { key, value });
                assert(references@.take(next as int) =~= references@);
                assert(writes@.drop_last() =~= old_writes);
                assert(write_keys(writes@) =~= write_keys(old_writes).push(manifest_key_text()));
                Ok(writes)
            },
        }
    }
}

// --------------------------------------------------------------- loading

/// A load between references: `found()` records, for each reference handled
/// so far, whether the backend held its blob; `missing()` lists the others.
pub struct LoadRun {
    references: Vec<MediaRef>,
    next: usize,
    missing_refs: Vec<MediaRef>,
    found_flags: Ghost<Seq<bool>>,
}

/// What a load does next.
pub enum LoadStep {
    /// Read the next referenced blob.
    Media(LoadMedia),
    /// Every blob is handled: the project opens with these references
    /// missing, ascending.
    Done(Vec<MediaRef>),
}

impl LoadRun {
    #[verifier::type_invariant]
    spec fn inv(self) -> bool {
        &&& sorted_refs(self.references@)
        &&& self.next == self.found_flags@.len()
        &&& self.next <= self.references@.len()
        &&& self.missing_refs@ == unflagged(
            self.references@.take(self.next as int),
            self.found_flags@,
        )
    }

    /// The references the load covers, ascending.
    pub closed spec fn refs(self) -> Seq<MediaRef> {
        self.references@
    }

    /// For each reference handled so far, whether the backend held it.
    pub closed spec fn found(self) -> Seq<bool> {
        self.found_flags@
    }

    /// Starts loading the blobs of a manifest whose phrases name
    /// `phrase_media`.
    pub fn new(phrase_media: &Vec<MediaRef>) -> (r: LoadRun)
        ensures
            sorted_refs(r.refs()),
            r.refs().to_set() == phrase_media@.to_set(),
            r.found() == Seq::<bool>::empty(),
    {
        let references = referenced_media(phrase_media);
        let missing_refs: Vec<MediaRef> = Vec::new();
        assert(references@.take(0) =~= Seq::<MediaRef>::empty());
        LoadRun { references, next: 0, missing_refs, found_flags: Ghost(Seq::empty()) }
    }

    /// Moves to the next reference, or ends with the missing references.
    pub fn next_step(self) -> (s: LoadStep)
        ensures
            s matches LoadStep::Media(m) ==> self.found().len() < self.refs().len() && m.run_spec()
                == self,
            s matches LoadStep::Done(missing) ==> self.found().len() == self.refs().len()
                && missing@ == unflagged(self.refs(), self.found()),
    {
        proof {
            use_type_invariant(&self);
        }
        if self.next < self.references.len() {
            LoadStep::Media(LoadMedia { run: self })
        } else {
            let LoadRun { references, next, missing_refs, found_flags } = self;
            assert(references@.take(next as int) =~= references@);
            LoadStep::Done(missing_refs)
        }
    }
}

/// The reference a load is at.
pub open spec fn load_ref(run: LoadRun) -> MediaRef {
    run.refs()[run.found().len() as int]
}

/// A load at one reference, waiting for the backend's read of its entry.
pub struct LoadMedia {
    run: LoadRun,
}

/// What a load found at a blob's entry.
pub enum LoadFound {
    /// Nothing is stored: the reference is recorded missing and the load
    /// goes on.
    Missing(LoadRun),
    /// A blob is stored: decode these bytes and verify their hash.
    Present(LoadVerify, Vec<u8>),
}

impl LoadMedia {
    #[verifier::type_invariant]
    spec fn inv(self) -> bool {
        self.run.next < self.run.references@.len()
    }

    /// The run this step belongs to.
    pub closed spec fn run_spec(self) -> LoadRun {
        self.run
    }

    /// The reference whose blob is read.
    pub fn reference(&self) -> (r: MediaRef)
        ensures
            r == load_ref(self.run_spec()),
    {
        proof {
            use_type_invariant(self);
            use_type_invariant(&self.run);
        }
        self.run.references[self.run.next]
    }

    /// The entry to read: the current reference's media key.
    pub fn key(&self) -> (k: String)
        ensures
            k@ == media_key_text(load_ref(self.run_spec())),
    {
        media_key(self.reference())
    }

    /// Takes the backend's answer for the entry: a failure ends the load, an
    /// absent blob is recorded missing, stored bytes must be verified.
    pub fn on_lookup(self, found: Result<Option<Vec<u8>>, StoreFailure>) -> (r: Result<
        LoadFound,
        ProjectStoreError,
    >)
        ensures
            found matches Err(e) ==> r == Err::<LoadFound, ProjectStoreError>(
                ProjectStoreError::Store(e),
            ),
            found matches Ok(None) ==> (r matches Ok(LoadFound::Missing(next)) && next.refs()
                == self.run_spec().refs() && next.found() == self.run_spec().found().push(false)),
            found matches Ok(Some(bytes)) ==> (r matches Ok(LoadFound::Present(v, b)) && b == bytes
                && v.run_spec() == self.run_spec()),
    {
        proof {
            use_type_invariant(&self);
            use_type_invariant(&self.run);
        }
        match found {
            Err(e) => Err(ProjectStoreError::Store(e)),
            Ok(None) => {
                let LoadRun { references, next, mut missing_refs, found_flags } = self.run;
                assert(next < references.len());
                proof {
                    lemma_unflagged_step(references@, found_flags@, next as int, false);
                }
                missing_refs.push(references[next]);
                Ok(
                    LoadFound::Missing(
                        LoadRun {
                            references,
                            next: next + 1,
                            missing_refs,
                            found_flags: Ghost(found_flags@.push(false)),
                        },
                    ),
                )
            },
            Ok(Some(bytes)) => Ok(LoadFound::Present(LoadVerify { run: self.run }, bytes)),
        }
    }
}

/// A load waiting for the decode of a stored blob.
pub struct LoadVerify {
    run: LoadRun,
}

impl LoadVerify {
    #[verifier::type_invariant]
    spec fn inv(self) -> bool {
        self.run.next < self.run.references@.len()
    }

    /// The run this step belongs to.
    pub closed spec fn run_spec(self) -> LoadRun {
        self.run
    }

    /// Takes the decode of the stored blob: its defect, or the hash under
    /// which its decoded audio was stored. A defect or a hash other than the
    /// reference ends the load; otherwise the blob counts as found.
    pub fn on_decoded(self, decoded: Result<MediaRef, MediaDefect>) -> (r: Result<
        LoadRun,
        ProjectStoreError,
    >)
        ensures
            match decoded {
                Err(d) => r matches Err(ProjectStoreError::InvalidMedia { reference, reason })
                    && reference == load_ref(self.run_spec()) && reason@ == defect_reason(d),
                Ok(h) => if h != load_ref(self.run_spec()) {
                    r == Err::<LoadRun, ProjectStoreError>(
                        ProjectStoreError::MediaHashMismatch {
                            expected: load_ref(self.run_spec()),
                            actual: h,
                        },
                    )
                } else {
                    r matches Ok(next) && next.refs() == self.run_spec().refs() && next.found()
                        == self.run_spec().found().push(true)
                },
            },
    {
        proof {
            use_type_invariant(&self);
            use_type_invariant(&self.run);
        }
        let expected = self.run.references[self.run.next];
        match decoded {
            Err(d) => Err(ProjectStoreError::InvalidMedia { reference: expected, reason: d.reason() }),
            Ok(actual) => {
                if !ref_equal(&expected, &actual) {
                    return Err(ProjectStoreError::MediaHashMismatch { expected, actual });
                }
                let LoadRun { references, next, missing_refs, found_flags } = self.run;
                assert(next < references.len());
                proof {
                    lemma_unflagged_step(references@, found_flags@, next as int, true);
                }
                Ok(
                    LoadRun {
                        references,
                        next: next + 1,
                        missing_refs,
                        found_flags: Ghost(found_flags@.push(true)),
                    },
                )
            },
        }
    }
}

/// A load reports as missing exactly the references whose blobs the
/// backend lacked, ascending and each once; with every blob found, nothing
/// is missing.
pub proof fn lemma_load_missing(refs: Seq<MediaRef>, found: Seq<bool>)
    requires
        refs.len() == found.len(),
        sorted_refs(refs),
    ensures
        sorted_refs(unflagged(refs, found)),
        forall|k: int| 0 <= k < unflagged(refs, found).len() ==> exists|i: int|
            0 <= i < refs.len() && !found[i] && refs[i] == #[trigger] unflagged(refs, found)[k],
        forall|i: int| 0 <= i < refs.len() && !found[i] ==> unflagged(refs, found).contains(
            #[trigger] refs[i],
        ),
        (forall|i: int| 0 <= i < found.len() ==> #[trigger] found[i]) ==> unflagged(refs, found)
            == Seq::<MediaRef>::empty(),
    decreases refs.len(),
{
    lemma_unflagged_sorted(refs, found);
    lemma_unflagged_members(refs, found);
    if forall|i: int| 0 <= i < found.len() ==> #[trigger] found[i] {
        lemma_unflagged_all_set(refs, found);
    }
    if refs.len() > 0 {
        let pre = refs.drop_last();
        assert(sorted_refs(pre)) by {
            assert forall|i: int, j: int| 0 <= i < j < pre.len() implies ref_lt(
                #[trigger] pre[i],
                #[trigger] pre[j],
            ) by {
                assert(pre[i] == refs[i] && pre[j] == refs[j]);
            }
        }
        lemma_load_missing(pre, found.drop_last());
        let rest = unflagged(pre, found.drop_last());
        assert forall|i: int| 0 <= i < refs.len() && !found[i] implies unflagged(
            refs,
            found,
        ).contains(#[trigger] refs[i]) by {
            if i < refs.len() - 1 {
                assert(pre[i] == refs[i] && !found.drop_last()[i]);
                assert(rest.contains(pre[i]));
                let k = choose|k: int| 0 <= k < rest.len() && rest[k] == pre[i];
                if !found.last() {
                    assert(rest.push(refs.last())[k] == refs[i]);
                }
            } else {
                assert(unflagged(refs, found).last() == refs[i]);
            }
        }
    }
}

/// Maps the backend's answer for the manifest entry: the stored manifest
/// bytes, or why there are none.
pub fn manifest_from_lookup(found: Result<Option<Vec<u8>>, StoreFailure>) -> (r: Result<
    Vec<u8>,
    ProjectStoreError,
>)
    ensures
        found matches Err(e) ==> r == Err::<Vec<u8>, ProjectStoreError>(ProjectStoreError::Store(e)),
        found matches Ok(None) ==> r == Err::<Vec<u8>, ProjectStoreError>(
            ProjectStoreError::MissingManifest,
        ),
        found matches Ok(Some(b)) ==> r == Ok::<Vec<u8>, ProjectStoreError>(b),
{
    match found {
        Err(e) => Err(ProjectStoreError::Store(e)),
        Ok(None) => Err(ProjectStoreError::MissingManifest),
        Ok(Some(b)) => Ok(b),
    }
}

/// Maps the decode of the stored manifest: the bundle, or a manifest
/// failure carrying the codec's text. No media entry is read before this.
pub fn manifest_from_decode<M>(decoded: Result<M, String>) -> (r: Result<M, ProjectStoreError>)
    ensures
        decoded matches Ok(m) ==> r == Ok::<M, ProjectStoreError>(m),
        decoded matches Err(e) ==> r == Err::<M, ProjectStoreError>(ProjectStoreError::Manifest(e)),
{
    match decoded {
        Ok(m) => Ok(m),
        Err(e) => Err(ProjectStoreError::Manifest(e)),
    }
}

// ------------------------------------------------------ backend contents

/// For each reference, whether a backend holding `state` has its entry.
pub open spec fn held_flags(state: Map<Seq<char>, Seq<u8>>, refs: Seq<MediaRef>) -> Seq<bool> {
    Seq::new(refs.len(), |i: int| state.contains_key(media_key_text(refs[i])))
}

/// The contents of a backend holding `state` after a batch lands, each put
/// overwriting its key in order.
pub open spec fn apply_writes(state: Map<Seq<char>, Seq<u8>>, ws: Seq<PendingWrite>) -> Map<
    Seq<char>,
    Seq<u8>,
>
    decreases ws.len(),
{
    if ws.len() == 0 {
        state
    } else {
        apply_writes(state, ws.drop_last()).insert(ws.last().key@, ws.last().value@)
    }
}

/// After a batch, a key has an entry when it had one or the batch puts it;
/// a key the batch puts once holds that put's bytes; other keys are kept.
pub proof fn lemma_apply_writes(state: Map<Seq<char>, Seq<u8>>, ws: Seq<PendingWrite>)
    ensures
        forall|k: Seq<char>|
            #[trigger] apply_writes(state, ws).contains_key(k) <==> state.contains_key(k)
                || write_keys(ws).contains(k),
        forall|k: Seq<char>|
            !write_keys(ws).contains(k) ==> #[trigger] apply_writes(state, ws).index(k)
                == state.index(k),
        write_keys(ws).no_duplicates() ==> forall|j: int|
            0 <= j < ws.len() ==> apply_writes(state, ws).index(#[trigger] ws[j].key@)
                == ws[j].value@,
    decreases ws.len(),
{
    if ws.len() > 0 {
        let pre = ws.drop_last();
        lemma_apply_writes(state, pre);
        assert(write_keys(pre) =~= write_keys(ws).drop_last());
        let last = ws.last().key@;
        assert(write_keys(ws) =~= write_keys(pre).push(last));
        assert(apply_writes(state, ws) == apply_writes(state, pre).insert(last, ws.last().value@));
        assert forall|k: Seq<char>|
            #[trigger] apply_writes(state, ws).contains_key(k) <==> state.contains_key(k)
                || write_keys(ws).contains(k) by {
            assert(apply_writes(state, pre).contains_key(k) <==> state.contains_key(k)
                || write_keys(pre).contains(k));
            if write_keys(pre).contains(k) {
                let i = choose|i: int| 0 <= i < write_keys(pre).len() && write_keys(pre)[i] == k;
                assert(write_keys(ws)[i] == k);
            }
            if write_keys(ws).contains(k) && k != last {
                let i = choose|i: int| 0 <= i < write_keys(ws).len() && write_keys(ws)[i] == k;
                assert(write_keys(pre)[i] == k);
            }
            if k == last {
                assert(write_keys(ws)[ws.len() - 1] == k);
            }
        }
        assert forall|k: Seq<char>| !write_keys(ws).contains(k) implies #[trigger] apply_writes(
            state,
            ws,
        ).index(k) == state.index(k) by {
            assert(write_keys(ws)[ws.len() - 1] == last);
            assert(k != last);
            if !write_keys(pre).contains(k) {
                assert(apply_writes(state, pre).index(k) == state.index(k));
            }
            if write_keys(pre).contains(k) {
                let i = choose|i: int| 0 <= i < write_keys(pre).len() && write_keys(pre)[i] == k;
                assert(write_keys(ws)[i] == k);
            }
        }
        if write_keys(ws).no_duplicates() {
            assert(write_keys(pre).no_duplicates()) by {
                assert forall|a: int, b: int|
                    0 <= a < write_keys(pre).len() && 0 <= b < write_keys(pre).len() && a != b
                        implies write_keys(pre)[a] != write_keys(pre)[b] by {
                    assert(write_keys(pre)[a] == write_keys(ws)[a]);
                    assert(write_keys(pre)[b] == write_keys(ws)[b]);
                }
            }
            assert forall|j: int| 0 <= j < ws.len() implies apply_writes(state, ws).index(
                #[trigger] ws[j].key@,
            ) == ws[j].value@ by {
                if j < ws.len() - 1 {
                    assert(pre[j] == ws[j]);
                    assert(write_keys(ws)[j] == ws[j].key@);
                    assert(write_keys(ws)[ws.len() - 1] == last);
                    assert(ws[j].key@ != last);
                }
            }
        }
    }
}

/// Save, then load: when a save's lookups were answered from a backend
/// holding `state` and its batch `ws` lands, every referenced blob has an
/// entry, each blob the batch put holds the bytes put for it, every blob
/// that was there is kept, the manifest entry holds the manifest bytes, and
/// a load whose lookups are answered from the new contents finds every
/// reference, so it reports none missing. Decoding the blobs back to the
/// saved audio rests on the WAV coding and the hash outside this library.
pub proof fn lemma_save_then_load(
    refs: Seq<MediaRef>,
    state: Map<Seq<char>, Seq<u8>>,
    ws: Seq<PendingWrite>,
    manifest: Seq<u8>,
)
    requires
        sorted_refs(refs),
        write_keys(ws) == blob_keys(refs, held_flags(state, refs)).push(manifest_key_text()),
        ws.last().value@ == manifest,
    ensures
        forall|i: int|
            0 <= i < refs.len() ==> apply_writes(state, ws).contains_key(
                media_key_text(#[trigger] refs[i]),
            ),
        forall|j: int| 0 <= j < ws.len() ==> apply_writes(state, ws).index(#[trigger] ws[j].key@)
            == ws[j].value@,
        forall|i: int|
            0 <= i < refs.len() && state.contains_key(media_key_text(#[trigger] refs[i]))
                ==> apply_writes(state, ws).index(media_key_text(refs[i])) == state.index(
                media_key_text(refs[i]),
            ),
        apply_writes(state, ws).contains_key(manifest_key_text()),
        apply_writes(state, ws).index(manifest_key_text()) == manifest,
        held_flags(apply_writes(state, ws), refs) == Seq::new(refs.len(), |i: int| true),
        unflagged(refs, held_flags(apply_writes(state, ws), refs)) == Seq::<MediaRef>::empty(),
{
    let held = held_flags(state, refs);
    let after = apply_writes(state, ws);
    lemma_save_batch_keys(refs, held);
    lemma_save_covers_every_reference(refs, held);
    lemma_apply_writes(state, ws);
    let keys = write_keys(ws);
    assert(ws.len() == keys.len());
    assert forall|i: int| 0 <= i < refs.len() implies after.contains_key(
        media_key_text(#[trigger] refs[i]),
    ) by {
        assert(held[i] == state.contains_key(media_key_text(refs[i])));
        if !held[i] {
            let k = choose|k: int|
                0 <= k < blob_keys(refs, held).len() && blob_keys(refs, held)[k] == media_key_text(
                    refs[i],
                );
            assert(keys[k] == media_key_text(refs[i]));
        }
    }
    assert forall|i: int|
        0 <= i < refs.len() && state.contains_key(media_key_text(#[trigger] refs[i])) implies after.index(
        media_key_text(refs[i]),
    ) == state.index(media_key_text(refs[i])) by {
        if keys.contains(media_key_text(refs[i])) {
            let k = choose|k: int| 0 <= k < keys.len() && keys[k] == media_key_text(refs[i]);
            if k == keys.len() - 1 {
                lemma_media_key_not_manifest(refs[i]);
            } else {
                let bk = blob_keys(refs, held);
                assert(bk[k] == keys[k]);
                let m = choose|m: int|
                    0 <= m < refs.len() && !held[m] && #[trigger] bk[k] == media_key_text(refs[m]);
                lemma_media_key_injective(refs[m], refs[i]);
                lemma_sorted_no_duplicates(refs);
            }
        }
    }
    assert(ws[ws.len() - 1].key@ == manifest_key_text()) by {
        assert(keys[keys.len() - 1] == ws[ws.len() - 1].key@);
    }
    let flags = held_flags(after, refs);
    assert forall|i: int| 0 <= i < flags.len() implies #[trigger] flags[i] by {
        assert(after.contains_key(media_key_text(refs[i])));
    }
    assert(flags =~= Seq::new(refs.len(), |i: int| true));
    lemma_unflagged_all_set(refs, flags);
}

/// Saving again changes nothing: after a save from `state` lands, a second
/// save of the same manifest, answered from the new contents and handed the
/// same manifest bytes, finds every blob stored, so its batch is the
/// manifest put alone, and landing it leaves the contents as they were.
pub proof fn lemma_resave_is_idempotent(
    refs: Seq<MediaRef>,
    state: Map<Seq<char>, Seq<u8>>,
    first: Seq<PendingWrite>,
    second: Seq<PendingWrite>,
    manifest: Seq<u8>,
)
    requires
        sorted_refs(refs),
        write_keys(first) == blob_keys(refs, held_flags(state, refs)).push(manifest_key_text()),
        first.last().value@ == manifest,
        write_keys(second) == blob_keys(refs, held_flags(apply_writes(state, first), refs)).push(
            manifest_key_text(),
        ),
        second.last().value@ == manifest,
    ensures
        second.len() == 1,
        second[0].key@ == manifest_key_text(),
        apply_writes(apply_writes(state, first), second) == apply_writes(state, first),
{
    let after = apply_writes(state, first);
    lemma_save_then_load(refs, state, first, manifest);
    let flags = held_flags(after, refs);
    assert forall|i: int| 0 <= i < flags.len() implies #[trigger] flags[i] by {
        assert(flags == Seq::new(refs.len(), |i: int| true));
    }
    lemma_unflagged_all_set(refs, flags);
    assert(blob_keys(refs, flags) =~= Seq::<Seq<char>>::empty());
    assert(write_keys(second).len() == 1);
    assert(write_keys(second)[0] == second[0].key@);
    assert(second.drop_last() =~= Seq::<PendingWrite>::empty());
    assert(apply_writes(after, second.drop_last()) == after);
    assert(second.last() == second[0]);
    assert(apply_writes(after, second) =~= after.insert(manifest_key_text(), manifest));
    assert(after.insert(manifest_key_text(), manifest) =~= after);
}

/// A load only reads, and reads in order: it holds no write batch, its
/// references ascend, and the entry it reads at step `k` is the media key
/// of reference `k`, so the keys it reads after the manifest are pairwise
/// distinct and none is the manifest key.
pub proof fn lemma_load_reads_in_order(refs: Seq<MediaRef>)
    requires
        sorted_refs(refs),
    ensures
        forall|i: int, j: int| 0 <= i < j < refs.len() ==> ref_lt(#[trigger] refs[i], #[trigger] refs[j]),
        forall|i: int, j: int|
            0 <= i < refs.len() && 0 <= j < refs.len() && i != j ==> media_key_text(
                #[trigger] refs[i],
            ) != media_key_text(#[trigger] refs[j]),
        forall|i: int|
            0 <= i < refs.len() ==> media_key_text(#[trigger] refs[i]) != manifest_key_text(),
{
    lemma_sorted_no_duplicates(refs);
    assert forall|i: int, j: int|
        0 <= i < refs.len() && 0 <= j < refs.len() && i != j implies media_key_text(
        #[trigger] refs[i],
    ) != media_key_text(#[trigger] refs[j]) by {
        if media_key_text(refs[i]) == media_key_text(refs[j]) {
            lemma_media_key_injective(refs[i], refs[j]);
        }
    }
    assert forall|i: int| 0 <= i < refs.len() implies media_key_text(#[trigger] refs[i])
        != manifest_key_text() by {
        lemma_media_key_not_manifest(refs[i]);
    }
}

} // verus!
