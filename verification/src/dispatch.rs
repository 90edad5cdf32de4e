//! Dispatch orchestration.
//!
//! For each harvest unit a deterministic, idempotent identifier is
//! derived from one coarse dispatch timestamp shared by the whole batch
//! and a normalized key built from event type, event key and unit label.
//! The submission itself is performed by the unverified shell; per-unit
//! failures are recovered there and only the successful identifiers are
//! collected, so one failing unit never aborts its siblings.

use vstd::prelude::*;

use crate::bytestr::{append_bytes, copy_bytes, to_ascii_lower, views_of, ascii_lower};
use crate::config::Config;
use crate::digits::{dec_digits, u64_to_dec};
use crate::engine::{
    synthetic_job, advanced_state, HarvestJob, Processor, processor_for, HARVEST_SPAN_SECS,
    SETTLE_BUFFER_SECS,
};
use crate::errors::HarvestError;
use crate::state::{
    get_or_create_result, store_after_get_or_create, store_after_save, store_wf, RecordView,
    StateStore, EXPIRY_WINDOW_SECS,
};

verus! {

/// The normalized file key of one unit: event type and event key folded
/// to lower case, joined with the unit label by underscores.
pub open spec fn build_key_spec(event_type: Seq<u8>, event_key: Seq<u8>, match_name: Seq<u8>) -> Seq<
    u8,
> {
    ascii_lower(event_type) + seq![95u8] + ascii_lower(event_key) + seq![95u8] + match_name
}

/// Builds the normalized file key of one unit.
pub fn build_key(event_type: &Vec<u8>, event_key: &Vec<u8>, match_name: &Vec<u8>) -> (r: Vec<u8>)
    ensures
        r@ == build_key_spec(event_type@, event_key@, match_name@),
{
    let mut r = to_ascii_lower(event_type);
    r.push(95);
    let ek = to_ascii_lower(event_key);
    append_bytes(&mut r, &ek);
    r.push(95);
    append_bytes(&mut r, match_name);
    proof {
        assert(r@ =~= build_key_spec(event_type@, event_key@, match_name@));
    }
    r
}

/// The deterministic job identifier: the shared dispatch timestamp and
/// the file key, joined by a hyphen.  One batch shares one timestamp, so
/// its units are identifiable as one submission attempt.
pub open spec fn job_id_spec(epoch: u64, file_key: Seq<u8>) -> Seq<u8> {
    dec_digits(epoch as nat) + seq![45u8] + file_key
}

/// The destination manifest key of one unit: `<key>/<key>.m3u8`.
pub open spec fn unit_manifest_key_spec(file_key: Seq<u8>) -> Seq<u8> {
    file_key + seq![47u8] + file_key + seq![46u8, 109u8, 51u8, 117u8, 56u8]
}

/// One fully derived harvest submission, ready for the submission
/// collaborator.
pub struct SubmissionRequest {
    /// Deterministic idempotent identifier of the submission.
    pub id: Vec<u8>,
    /// Origin endpoint the clip is harvested from.
    pub origin_endpoint_id: Vec<u8>,
    /// Destination bucket for the harvested clip.
    pub destination_bucket: Vec<u8>,
    /// Destination manifest key within the bucket.
    pub manifest_key: Vec<u8>,
    /// Execution role submitted with the job.
    pub role: Vec<u8>,
    /// Start of the harvested window, epoch seconds.
    pub start_time: u64,
    /// End of the harvested window, epoch seconds.
    pub end_time: u64,
}

/// Mathematical image of a [`SubmissionRequest`].
pub ghost struct RequestView {
    pub id: Seq<u8>,
    pub origin_endpoint_id: Seq<u8>,
    pub destination_bucket: Seq<u8>,
    pub manifest_key: Seq<u8>,
    pub role: Seq<u8>,
    pub start_time: u64,
    pub end_time: u64,
}

impl View for SubmissionRequest {
    type V = RequestView;

    open spec fn view(&self) -> RequestView {
        RequestView {
            id: self.id@,
            origin_endpoint_id: self.origin_endpoint_id@,
            destination_bucket: self.destination_bucket@,
            manifest_key: self.manifest_key@,
            role: self.role@,
            start_time: self.start_time,
            end_time: self.end_time,
        }
    }
}

/// The submission derived for one unit under one configuration and one
/// shared dispatch timestamp.
pub open spec fn harvest_request_view(c: Config, epoch: u64, job: crate::engine::JobView) -> RequestView {
    let file_key = build_key_spec(c.event_type@, c.event_key@, job.match_name);
    RequestView {
        id: job_id_spec(epoch, file_key),
        origin_endpoint_id: c.endpoint_id@,
        destination_bucket: c.destination_bucket@,
        manifest_key: unit_manifest_key_spec(file_key),
        role: c.harvest_role@,
        start_time: job.start_time,
        end_time: job.end_time,
    }
}

/// Derives the submission for one unit.
pub fn harvest_request(c: &Config, epoch: u64, job: &HarvestJob) -> (r: SubmissionRequest)
    ensures
        r@ == harvest_request_view(*c, epoch, job@),
{
    let file_key = build_key(&c.event_type, &c.event_key, &job.match_name);
    let mut id = u64_to_dec(epoch);
    id.push(45);
    append_bytes(&mut id, &file_key);
    let mut manifest_key = copy_bytes(&file_key);
    manifest_key.push(47);
    append_bytes(&mut manifest_key, &file_key);
    manifest_key.push(46);
    manifest_key.push(109);
    manifest_key.push(51);
    manifest_key.push(117);
    manifest_key.push(56);
    proof {
        assert(id@ =~= job_id_spec(epoch, file_key@));
        assert(manifest_key@ =~= unit_manifest_key_spec(file_key@));
    }
    SubmissionRequest {
        id,
        origin_endpoint_id: copy_bytes(&c.endpoint_id),
        destination_bucket: copy_bytes(&c.destination_bucket),
        manifest_key,
        role: copy_bytes(&c.harvest_role),
        start_time: job.start_time,
        end_time: job.end_time,
    }
}

/// The per-unit submission outcomes of one batch, as byte strings.
pub open spec fn outcome_views(s: Seq<Option<Vec<u8>>>) -> Seq<Option<Seq<u8>>> {
    s.map_values(
        |o: Option<Vec<u8>>|
            match o {
                Some(v) => Some(v@),
                None => None,
            },
    )
}

/// The identifiers of the successful submissions, in batch order: failed
/// units are left out, successful ones are kept unchanged.
pub open spec fn successful_ids(s: Seq<Option<Seq<u8>>>) -> Seq<Seq<u8>>
    decreases s.len(),
{
    if s.len() == 0 {
        Seq::empty()
    } else {
        let rest = successful_ids(s.drop_last());
        if s.last() is Some {
            rest.push(s.last()->Some_0)
        } else {
            rest
        }
    }
}

/// Collects the identifiers of the successfully submitted units of one
/// batch.  A failed unit contributes nothing and aborts nothing: the
/// result holds exactly the identifiers of the successful units, in
/// order.
pub fn collect_job_ids(outcomes: &Vec<Option<Vec<u8>>>) -> (r: Vec<Vec<u8>>)
    ensures
        views_of(r@) == successful_ids(outcome_views(outcomes@)),
{
    let mut r: Vec<Vec<u8>> = Vec::new();
    let mut i: usize = 0;
    proof {
        assert(outcome_views(outcomes@).subrange(0, 0) =~= Seq::<Option<Seq<u8>>>::empty());
        assert(views_of(r@) =~= successful_ids(outcome_views(outcomes@).subrange(0, 0)));
    }
    while i < outcomes.len()
        invariant
            0 <= i <= outcomes@.len(),
            views_of(r@) == successful_ids(outcome_views(outcomes@).subrange(0, i as int)),
        decreases outcomes@.len() - i,
    {
        proof {
            let s = outcome_views(outcomes@);
            assert(s.subrange(0, i as int + 1).drop_last() =~= s.subrange(0, i as int));
            assert(s.subrange(0, i as int + 1).last() == s[i as int]);
        }
        match &outcomes[i] {
            Some(v) => {
                r.push(copy_bytes(v));
                proof {
                    assert(views_of(r@) =~= successful_ids(
                        outcome_views(outcomes@).subrange(0, i as int + 1),
                    ));
                }
            },
            None => {
                proof {
                    assert(views_of(r@) =~= successful_ids(
                        outcome_views(outcomes@).subrange(0, i as int + 1),
                    ));
                }
            },
        }
        i = i + 1;
    }
    proof {
        assert(outcome_views(outcomes@).subrange(0, i as int) =~= outcome_views(outcomes@));
    }
    r
}

/// An object location under a bucket: `s3://<bucket>/<key>`.
pub open spec fn s3_url(bucket: Seq<u8>, key: Seq<u8>) -> Seq<u8> {
    seq![115u8, 51u8, 58u8, 47u8, 47u8] + bucket + seq![47u8] + key
}

/// The destination path of a converted clip: the clip prefix with the
/// segment-count separator replaced by a path separator.
pub open spec fn underscores_to_slashes(s: Seq<u8>) -> Seq<u8> {
    s.map_values(
        |b: u8|
            if b == 95 {
                47u8
            } else {
                b
            },
    )
}

/// The input locations of a conversion, one per segment, in the order
/// the segments are given.
pub open spec fn input_urls(bucket: Seq<u8>, parts: Seq<Seq<u8>>) -> Seq<Seq<u8>> {
    parts.map_values(|k: Seq<u8>| s3_url(bucket, k))
}

/// Renders an object location under a bucket.
fn s3_url_bytes(bucket: &Vec<u8>, key: &Vec<u8>) -> (r: Vec<u8>)
    ensures
        r@ == s3_url(bucket@, key@),
{
    let mut r: Vec<u8> = Vec::new();
    r.push(115);
    r.push(51);
    r.push(58);
    r.push(47);
    r.push(47);
    append_bytes(&mut r, bucket);
    r.push(47);
    append_bytes(&mut r, key);
    proof {
        assert(r@ =~= s3_url(bucket@, key@));
    }
    r
}

/// Replaces each underscore by a slash.
fn replace_underscores(s: &Vec<u8>) -> (r: Vec<u8>)
    ensures
        r@ == underscores_to_slashes(s@),
{
    let mut r: Vec<u8> = Vec::new();
    let mut i: usize = 0;
    while i < s.len()
        invariant
            0 <= i <= s@.len(),
            r@ == underscores_to_slashes(s@.subrange(0, i as int)),
        decreases s@.len() - i,
    {
        let b = s[i];
        if b == 95 {
            r.push(47);
        } else {
            r.push(b);
        }
        proof {
            assert(underscores_to_slashes(s@.subrange(0, i as int + 1)) =~= underscores_to_slashes(
                s@.subrange(0, i as int),
            ).push(
                if s@[i as int] == 95 {
                    47u8
                } else {
                    s@[i as int]
                },
            ));
        }
        i = i + 1;
    }
    proof {
        assert(s@.subrange(0, i as int) =~= s@);
    }
    r
}

/// One fully derived transcode submission: ordered inputs and the
/// destination prefix.  The fixed output container and codec profile are
/// plumbing added by the unverified shell.
pub struct ConvertPlan {
    /// Input locations, one per segment, ascending.
    pub inputs: Vec<Vec<u8>>,
    /// Destination location of the converted clip.
    pub destination: Vec<u8>,
}

/// Derives the transcode submission covering the given segments, in the
/// order given: the caller hands them in the detector's ascending order.
pub fn plan_convert(
    source_bucket: &Vec<u8>,
    destination_bucket: &Vec<u8>,
    parts: &Vec<Vec<u8>>,
    prefix: &Vec<u8>,
) -> (r: ConvertPlan)
    ensures
        views_of(r.inputs@) == input_urls(source_bucket@, views_of(parts@)),
        r.destination@ == s3_url(destination_bucket@, underscores_to_slashes(prefix@)),
{
    let mut inputs: Vec<Vec<u8>> = Vec::new();
    let mut i: usize = 0;
    proof {
        assert(views_of(inputs@) =~= input_urls(
            source_bucket@,
            views_of(parts@).subrange(0, 0),
        ));
    }
    while i < parts.len()
        invariant
            0 <= i <= parts@.len(),
            views_of(inputs@) == input_urls(source_bucket@, views_of(parts@).subrange(0, i as int)),
        decreases parts@.len() - i,
    {
        let url = s3_url_bytes(source_bucket, &parts[i]);
        let ghost pre = inputs@;
        inputs.push(url);
        proof {
            assert(views_of(inputs@) =~= views_of(pre).push(s3_url(source_bucket@, parts@[
                i as int]@)));
            assert(input_urls(source_bucket@, views_of(parts@).subrange(0, i as int + 1))
                =~= input_urls(source_bucket@, views_of(parts@).subrange(0, i as int)).push(
                s3_url(source_bucket@, parts@[i as int]@),
            ));
        }
        i = i + 1;
    }
    proof {
        assert(views_of(parts@).subrange(0, i as int) =~= views_of(parts@));
    }
    let sep = replace_underscores(prefix);
    let destination = s3_url_bytes(destination_bucket, &sep);
    ConvertPlan { inputs, destination }
}

/// Derives the single-object legacy transcode submission: one input, the
/// object itself, and the bucket root as destination.
pub fn plan_legacy(
    source_bucket: &Vec<u8>,
    source_key: &Vec<u8>,
    destination_bucket: &Vec<u8>,
) -> (r: ConvertPlan)
    ensures
        views_of(r.inputs@) == seq![s3_url(source_bucket@, source_key@)],
        r.destination@ == s3_url(destination_bucket@, Seq::<u8>::empty()),
{
    let mut inputs: Vec<Vec<u8>> = Vec::new();
    inputs.push(s3_url_bytes(source_bucket, source_key));
    let empty: Vec<u8> = Vec::new();
    let destination = s3_url_bytes(destination_bucket, &empty);
    proof {
        assert(views_of(inputs@) =~= seq![s3_url(source_bucket@, source_key@)]);
    }
    ConvertPlan { inputs, destination }
}

/// Decides the multi-segment branch of one transcode invocation: reads
/// the expected count from the parsed manifest, holds the listed keys
/// against it, and derives the conversion covering the complete set in
/// ascending order.  An incomplete set defers with no work and no error.
pub fn plan_clip_conversion(
    source_bucket: &Vec<u8>,
    destination_bucket: &Vec<u8>,
    manifest: &crate::segments::ManifestParts,
    listed: &Vec<Vec<u8>>,
) -> (r: Result<Option<ConvertPlan>, HarvestError>)
    ensures
        r is Err <==> !(manifest.total@.len() > 0 && crate::digits::all_digits(manifest.total@)
            && crate::digits::dec_value(manifest.total@) <= u64::MAX),
        r matches Err(e) ==> e == HarvestError::MalformedCount,
        r matches Ok(o) ==> {
            &&& o is Some <==> crate::segments::manifest_filter(views_of(listed@)).len()
                == crate::digits::dec_value(manifest.total@)
            &&& o matches Some(plan) ==> {
                &&& exists|ks: Seq<Seq<u8>>|
                    {
                        &&& crate::segments::sorted_lex(ks)
                        &&& ks.to_multiset() == crate::segments::manifest_filter(
                            views_of(listed@),
                        ).to_multiset()
                        &&& views_of(plan.inputs@) == #[trigger] input_urls(source_bucket@, ks)
                    }
                &&& plan.destination@ == s3_url(
                    destination_bucket@,
                    underscores_to_slashes(manifest.prefix@),
                )
            }
        },
{
    let expected = match crate::segments::expected_total(&manifest.total) {
        Ok(v) => v,
        Err(e) => {
            return Err(e);
        },
    };
    match crate::segments::complete_segments(expected, listed) {
        Some(sorted) => {
            let plan = plan_convert(source_bucket, destination_bucket, &sorted, &manifest.prefix);
            proof {
                let ks = views_of(sorted@);
                assert(crate::segments::sorted_lex(ks) && ks.to_multiset()
                    == crate::segments::manifest_filter(views_of(listed@)).to_multiset()
                    && views_of(plan.inputs@) == input_urls(source_bucket@, ks));
            }
            Ok(Some(plan))
        },
        None => Ok(None),
    }
}

/// Whether the state read for `key` leaves room to advance the sequence.
pub open spec fn can_advance(s: Seq<RecordView>, key: Seq<u8>) -> bool {
    get_or_create_result(s, key) matches Ok(v) ==> v.last_harvested_match < u64::MAX
}

/// Runs one harvester invocation against the state store: selects the
/// processor named by the configured event type, loads or creates the
/// state for the configured event key, lets the processor decide, saves
/// the advanced state, and derives one submission per decided unit, all
/// sharing `now` as their dispatch timestamp.  A fatal error leaves no
/// partial work beyond the state transitions already taken.
pub fn process_event(store: &mut StateStore, config: &Config, now: u64) -> (r: Result<
    Vec<SubmissionRequest>,
    HarvestError,
>)
    requires
        store_wf(old(store)@),
        now >= HARVEST_SPAN_SECS + SETTLE_BUFFER_SECS,
        now <= u64::MAX - EXPIRY_WINDOW_SECS,
        can_advance(old(store)@, config.event_key@),
    ensures
        store_wf(final(store)@),
        processor_for(config.event_type@) matches Err(e) ==> (r matches Err(e2) && e2 == e
            && final(store)@ == old(store)@),
        processor_for(config.event_type@) == Ok::<Processor, HarvestError>(Processor::Ftc) ==> {
            &&& final(store)@ == old(store)@
            &&& r matches Ok(v) && v@.len() == 0
        },
        processor_for(config.event_type@) == Ok::<Processor, HarvestError>(Processor::Test) ==> {
            let goc = get_or_create_result(old(store)@, config.event_key@);
            &&& (goc matches Err(e) ==> r matches Err(e2) && e2 == e && final(store)@
                == store_after_get_or_create(old(store)@, config.event_key@, now))
            &&& (goc matches Ok(st) ==> {
                let st1 = advanced_state(st);
                &&& final(store)@ == store_after_save(
                    store_after_get_or_create(old(store)@, config.event_key@, now),
                    config.event_key@,
                    st1,
                    now,
                )
                &&& r matches Ok(v)
                &&& v@.len() == 1
                &&& v@[0]@ == harvest_request_view(
                    *config,
                    now,
                    synthetic_job(st1.last_harvested_match, now),
                )
            })
        },
{
    let proc = match Processor::from_event_type(&config.event_type) {
        Ok(p) => p,
        Err(e) => {
            return Err(e);
        },
    };
    match proc {
        Processor::Ftc => Ok(Vec::new()),
        Processor::Test => {
            let st = match store.get_or_create(&config.event_key, now) {
                Ok(s) => s,
                Err(e) => {
                    return Err(e);
                },
            };
            let decided = proc.decide(&st, now);
            let new_state = decided.0;
            let jobs = decided.1;
            store.save(&config.event_key, &new_state, now);
            let mut requests: Vec<SubmissionRequest> = Vec::new();
            let mut i: usize = 0;
            while i < jobs.len()
                invariant
                    0 <= i <= jobs@.len(),
                    requests@.len() == i,
                    forall|t: int|
                        0 <= t < i ==> #[trigger] requests@[t]@ == harvest_request_view(
                            *config,
                            now,
                            jobs@[t]@,
                        ),
                decreases jobs@.len() - i,
            {
                let req = harvest_request(config, now, &jobs[i]);
                requests.push(req);
                i = i + 1;
            }
            Ok(requests)
        },
    }
}

} // verus!
