use vstd::prelude::*;
use crate::aggregate::{empty_agg_model, snapshot_fold, AggModel, Aggregator};
use crate::decode::{decode_snapshot, decode_spec, DecodeCause};
use crate::station::{FilterPolicy, SnapModel};

verus! {

/// Why one input file was skipped.
#[derive(Clone, Copy, PartialEq, Eq, Structural, Debug)]
pub enum SkipCause {
    /// The file could not be decoded.
    Decode(DecodeCause),
    /// Recording the file would overflow the 32-bit identifier space — a
    /// machine-limit guard, never reached at bike-share scale.
    CapacityExceeded,
}

/// One skipped file: its identity and the cause, reported instead of
/// aborting the run.
#[derive(Debug)]
pub struct SkipReport {
    pub name: String,
    pub cause: SkipCause,
}

/// One input file, already read into memory: its identity and its
/// compressed bytes.
#[derive(Debug)]
pub struct InputFile {
    pub name: String,
    pub bytes: Vec<u8>,
}

/// What a run did: how many files contributed rows, and which were skipped,
/// with reasons.
#[derive(Debug)]
pub struct RunSummary {
    pub processed: usize,
    pub skipped: Vec<SkipReport>,
}

/// Whether the identifier space has room for one more snapshot: every
/// station of the snapshot could be new, and one more identifier must
/// remain assignable.
pub open spec fn fits(m: AggModel, sm: SnapModel) -> bool {
    m.keys.len() + sm.stations.len() + 1 < u32::MAX
}

/// What one file does to the aggregator model: a file that decodes and fits
/// is folded in under the filter policy; any other file leaves the model
/// unchanged and yields its skip cause.
pub open spec fn file_step(m: AggModel, bytes: Seq<u8>, policy: FilterPolicy) -> (
    AggModel,
    Option<SkipCause>,
) {
    match decode_spec(bytes) {
        Err(c) => (m, Some(SkipCause::Decode(c))),
        Ok(sm) => if fits(m, sm) {
            (snapshot_fold(m, sm, policy), None)
        } else {
            (m, Some(SkipCause::CapacityExceeded))
        },
    }
}

/// What a whole run does, file by file, in order: the final aggregator
/// model, and the skipped files — each exactly once, with its name and its
/// cause, in file order.
pub open spec fn run_model(m: AggModel, files: Seq<InputFile>, policy: FilterPolicy) -> (
    AggModel,
    Seq<(Seq<char>, SkipCause)>,
)
    decreases files.len(),
{
    if files.len() == 0 {
        (m, Seq::empty())
    } else {
        let st = file_step(m, files[0].bytes@, policy);
        let rest = run_model(st.0, files.drop_first(), policy);
        (
            rest.0,
            match st.1 {
                None => rest.1,
                Some(c) => seq![(files[0].name@, c)] + rest.1,
            },
        )
    }
}

/// Running one more file is one more file step.
pub proof fn lemma_run_model_push(
    m: AggModel,
    files: Seq<InputFile>,
    x: InputFile,
    policy: FilterPolicy,
)
    ensures
        run_model(m, files.push(x), policy) == ({
            let r1 = run_model(m, files, policy);
            let st = file_step(r1.0, x.bytes@, policy);
            (
                st.0,
                match st.1 {
                    None => r1.1,
                    Some(c) => r1.1 + seq![(x.name@, c)],
                },
            )
        }),
    decreases files.len(),
{
    if files.len() == 0 {
        let st = file_step(m, x.bytes@, policy);
        assert(files.push(x).drop_first() =~= files);
        assert(files.push(x)[0] == x);
        assert(run_model(st.0, files, policy) == (st.0, Seq::<(Seq<char>, SkipCause)>::empty()));
        if st.1 is Some {
            let c = st.1->Some_0;
            assert(seq![(x.name@, c)] + Seq::<(Seq<char>, SkipCause)>::empty() =~= Seq::<(
                Seq<char>,
                SkipCause,
            )>::empty() + seq![(x.name@, c)]);
        }
    } else {
        assert(files.push(x)[0] == files[0]);
        assert(files.push(x).drop_first() =~= files.drop_first().push(x));
        let st0 = file_step(m, files[0].bytes@, policy);
        lemma_run_model_push(st0.0, files.drop_first(), x, policy);
        if st0.1 is Some {
            let c0 = st0.1->Some_0;
            let r1 = run_model(st0.0, files.drop_first(), policy);
            let st = file_step(r1.0, x.bytes@, policy);
            if st.1 is Some {
                let c = st.1->Some_0;
                assert(seq![(files[0].name@, c0)] + (r1.1 + seq![(x.name@, c)]) =~= (seq![
                    (files[0].name@, c0),
                ] + r1.1) + seq![(x.name@, c)]);
            }
        }
    }
}

/// Decode one file and fold it into the aggregator; on any decode failure —
/// or when the identifier space is out of room — leave the aggregator
/// untouched and report the file as skipped, with the exact cause
/// `file_step` gives for the file's bytes.
pub fn process_file(
    agg: &mut Aggregator,
    name: &String,
    bytes: &Vec<u8>,
    policy: &FilterPolicy,
) -> (r: Option<SkipReport>)
    requires
        old(agg).wf(),
    ensures
        final(agg).wf(),
        final(agg)@ == file_step(old(agg)@, bytes@, *policy).0,
        match r {
            None => file_step(old(agg)@, bytes@, *policy).1 is None,
            Some(rep) => file_step(old(agg)@, bytes@, *policy).1 == Some(rep.cause) && rep.name@
                == name@,
        },
{
    let snap = match decode_snapshot(bytes) {
        Ok(snap) => snap,
        Err(cause) => {
            return Some(SkipReport { name: name.clone(), cause: SkipCause::Decode(cause) });
        },
    };
    let t_len: usize = agg.table.len();
    let s_len: usize = snap.stations.len();
    if t_len < (u32::MAX as usize) && s_len < (u32::MAX as usize) && (t_len as u64) + (s_len as u64)
        + 1 < (u32::MAX as u64) {
        proof {
            assert(fits(agg@, snap@));
        }
        agg.record_snapshot(&snap, policy);
        None
    } else {
        proof {
            assert(!fits(agg@, snap@));
        }
        Some(SkipReport { name: name.clone(), cause: SkipCause::CapacityExceeded })
    }
}

/// Run the whole aggregation pass: fold every input file into a fresh
/// aggregator, in the given order. One bad file never terminates the batch:
/// the result is exactly `run_model` over the files — the aggregator holds
/// the fold of every file that decodes and fits, and each other file stands
/// in the summary's skip list exactly once, in file order, with its name
/// and cause.
pub fn run_pipeline(files: &Vec<InputFile>, policy: &FilterPolicy) -> (r: (Aggregator, RunSummary))
    ensures
        r.0.wf(),
        r.1.processed + r.1.skipped@.len() == files@.len(),
        r.0@ == run_model(empty_agg_model(), files@, *policy).0,
        r.1.skipped@.map_values(|rep: SkipReport| (rep.name@, rep.cause)) == run_model(
            empty_agg_model(),
            files@,
            *policy,
        ).1,
{
    let mut agg = Aggregator::new();
    let mut processed: usize = 0;
    let mut skipped: Vec<SkipReport> = Vec::new();
    let n: usize = files.len();
    proof {
        assert(files@.take(0) =~= Seq::<InputFile>::empty());
        assert(skipped@.map_values(|rep: SkipReport| (rep.name@, rep.cause)) =~= Seq::<(
            Seq<char>,
            SkipCause,
        )>::empty());
    }
    for i in 0..n
        invariant
            n == files@.len(),
            agg.wf(),
            processed + skipped@.len() == i,
            agg@ == run_model(empty_agg_model(), files@.take(i as int), *policy).0,
            skipped@.map_values(|rep: SkipReport| (rep.name@, rep.cause)) == run_model(
                empty_agg_model(),
                files@.take(i as int),
                *policy,
            ).1,
    {
        proof {
            lemma_run_model_push(empty_agg_model(), files@.take(i as int), files@[i as int], *policy);
            assert(files@.take(i + 1) =~= files@.take(i as int).push(files@[i as int]));
        }
        match process_file(&mut agg, &files[i].name, &files[i].bytes, policy) {
            Some(rep) => {
                let ghost pre = skipped@.map_values(|rep: SkipReport| (rep.name@, rep.cause));
                skipped.push(rep);
                proof {
                    assert(skipped@.map_values(|rep: SkipReport| (rep.name@, rep.cause)) =~= pre
                        + seq![(rep.name@, rep.cause)]);
                }
            },
            None => {
                processed = processed + 1;
            },
        }
    }
    proof {
        assert(files@.take(n as int) =~= files@);
    }
    (agg, RunSummary { processed, skipped })
}

} // verus!
