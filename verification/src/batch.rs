//! The batch scheduler's decisions: partitioning the path list into
//! batches, re-associating one batch's demultiplexed segments with its
//! paths by position, and aggregating per-batch outcomes into the final
//! collection while tolerating failed invocations.
//!
//! Running the external tool itself is outside the verified core: the
//! front end performs one invocation per batch and hands the captured
//! standard output (or the invocation-failure signal) back to these
//! functions.

use vstd::prelude::*;

use crate::demux::demux_segments;
use crate::demux::spec_demux;
use crate::guess::Extension;
use crate::guess::GuessView;
use crate::guess::guess_views;
use crate::guess::parse_trid_output;
use crate::guess::spec_guesses;

verus! {

/// The association of one input path with its ordered candidate guesses.
/// An empty guess sequence is valid: the file was processed and nothing
/// was identified.
#[derive(Debug, Clone, PartialEq)]
pub struct FileResult {
    pub path: String,
    pub guesses: Vec<Extension>,
}

/// The mathematical value of one file result.
pub struct FileResultView {
    pub path: Seq<char>,
    pub guesses: Seq<GuessView>,
}

impl View for FileResult {
    type V = FileResultView;

    open spec fn view(&self) -> FileResultView {
        FileResultView { path: self.path@, guesses: guess_views(self.guesses@) }
    }
}

/// The views of a vector of strings.
pub open spec fn str_views(v: Seq<String>) -> Seq<Seq<char>> {
    v.map_values(|s: String| s@)
}

/// The views of a vector of batches.
pub open spec fn batch_views(v: Seq<Vec<String>>) -> Seq<Seq<Seq<char>>> {
    v.map_values(|b: Vec<String>| str_views(b@))
}

/// The view of an optional captured output.
pub open spec fn opt_view(o: Option<String>) -> Option<Seq<char>> {
    match o {
        Some(s) => Some(s@),
        None => None,
    }
}

/// The views of a vector of optional captured outputs.
pub open spec fn opt_views(v: Seq<Option<String>>) -> Seq<Option<Seq<char>>> {
    v.map_values(|o: Option<String>| opt_view(o))
}

/// The views of a vector of file results.
pub open spec fn result_views(v: Seq<FileResult>) -> Seq<FileResultView> {
    v.map_values(|r: FileResult| r@)
}

/// The contiguous batches of size `k` that partition `paths` in order;
/// the last batch may be shorter.
pub open spec fn spec_batches(paths: Seq<Seq<char>>, k: int) -> Seq<Seq<Seq<char>>>
    decreases paths.len() when k >= 1
{
    if paths.len() == 0 {
        Seq::empty()
    } else if paths.len() <= k {
        seq![paths]
    } else {
        seq![paths.subrange(0, k)] + spec_batches(paths.skip(k), k)
    }
}

/// The file results of one successfully invoked batch: segment `i` of
/// the demultiplexed output is re-associated with path `i`; paths beyond
/// the last segment receive no result.
pub open spec fn spec_process_batch(paths: Seq<Seq<char>>, stdout: Seq<char>) -> Seq<
    FileResultView,
> {
    let segs = spec_demux(stdout);
    let n = if segs.len() <= paths.len() {
        segs.len()
    } else {
        paths.len()
    };
    Seq::new(n, |i: int| FileResultView { path: paths[i], guesses: spec_guesses(segs[i]) })
}

/// The aggregate of a whole run: each batch with a captured output
/// contributes its file results in batch order; a batch whose invocation
/// failed contributes nothing.
pub open spec fn spec_aggregate(
    batches: Seq<Seq<Seq<char>>>,
    outputs: Seq<Option<Seq<char>>>,
) -> Seq<FileResultView>
    decreases batches.len(),
{
    if batches.len() == 0 {
        Seq::empty()
    } else {
        spec_aggregate(batches.drop_last(), outputs.drop_last()) + match outputs.last() {
            Some(o) => spec_process_batch(batches.last(), o),
            None => Seq::empty(),
        }
    }
}

// ---------------------------------------------------------------------------
// Laws of the scheduler.
// ---------------------------------------------------------------------------

/// Positional re-association within one batch: a processed batch yields
/// one result per demultiplexed segment (but never more than it has
/// paths), and result `i` pairs path `i` with the guesses parsed from
/// segment `i`.  Paths beyond the last segment receive no result.
pub proof fn lemma_batch_association(paths: Seq<Seq<char>>, stdout: Seq<char>)
    ensures
        spec_process_batch(paths, stdout).len() == (if spec_demux(stdout).len() <= paths.len() {
            spec_demux(stdout).len()
        } else {
            paths.len()
        }),
        forall|i: int| 0 <= i < spec_process_batch(paths, stdout).len()
            ==> (#[trigger] spec_process_batch(paths, stdout)[i]).path == paths[i]
            && spec_process_batch(paths, stdout)[i].guesses == spec_guesses(spec_demux(stdout)[i]),
{
}

/// A batch whose invocation failed contributes nothing to the aggregate,
/// and the other batches' results are untouched: aggregating equals
/// aggregating with the failed batch removed.
pub proof fn lemma_failed_batch_dropped(
    batches: Seq<Seq<Seq<char>>>,
    outputs: Seq<Option<Seq<char>>>,
    i: int,
)
    requires
        batches.len() == outputs.len(),
        0 <= i < batches.len(),
        outputs[i] is None,
    ensures
        spec_aggregate(batches, outputs) == spec_aggregate(batches.remove(i), outputs.remove(i)),
    decreases batches.len(),
{
    if i == batches.len() - 1 {
        assert(batches.remove(i) =~= batches.drop_last());
        assert(outputs.remove(i) =~= outputs.drop_last());
        assert(spec_aggregate(batches, outputs) =~= spec_aggregate(
            batches.drop_last(),
            outputs.drop_last(),
        ));
    } else {
        assert(outputs.drop_last()[i] == outputs[i]);
        lemma_failed_batch_dropped(batches.drop_last(), outputs.drop_last(), i);
        assert(batches.remove(i).drop_last() =~= batches.drop_last().remove(i));
        assert(outputs.remove(i).drop_last() =~= outputs.drop_last().remove(i));
        assert(batches.remove(i).last() == batches.last());
        assert(outputs.remove(i).last() == outputs.last());
        assert(spec_aggregate(batches, outputs) =~= spec_aggregate(
            batches.remove(i),
            outputs.remove(i),
        ));
    }
}

/// An empty path list partitions into no batches, and an empty run
/// aggregates to an empty collection: nothing is ever invoked for it.
pub proof fn lemma_empty_run(k: int)
    requires
        k >= 1,
    ensures
        spec_batches(Seq::empty(), k) == Seq::<Seq<Seq<char>>>::empty(),
        spec_aggregate(Seq::empty(), Seq::empty()) == Seq::<FileResultView>::empty(),
{
}

/// Partitions `paths` into contiguous batches of `batch_size`, in order;
/// the last batch may be shorter.  An empty path list yields no batches.
pub fn make_batches(paths: &Vec<String>, batch_size: usize) -> (r: Vec<Vec<String>>)
    requires
        batch_size >= 1,
    ensures
        batch_views(r@) == spec_batches(str_views(paths@), batch_size as int),
{
    let mut r: Vec<Vec<String>> = Vec::new();
    let mut start: usize = 0;
    let ghost pv = str_views(paths@);
    proof {
        assert(pv.skip(0) =~= pv);
        assert(batch_views(r@) + spec_batches(pv.skip(0), batch_size as int) =~= spec_batches(
            pv,
            batch_size as int,
        ));
    }
    while start < paths.len()
        invariant
            batch_size >= 1,
            start <= paths.len(),
            pv == str_views(paths@),
            spec_batches(pv, batch_size as int) == batch_views(r@) + spec_batches(
                pv.skip(start as int),
                batch_size as int,
            ),
        decreases paths@.len() - start,
    {
        let end = if paths.len() - start < batch_size {
            paths.len()
        } else {
            start + batch_size
        };
        let mut batch: Vec<String> = Vec::new();
        let mut i = start;
        while i < end
            invariant
                start <= i <= end <= paths@.len(),
                pv == str_views(paths@),
                str_views(batch@) =~= pv.subrange(start as int, i as int),
            decreases end - i,
        {
            let ghost batch0 = batch@;
            batch.push(paths[i].clone());
            proof {
                assert(str_views(batch@) =~= str_views(batch0).push(pv[i as int]));
            }
            i = i + 1;
        }
        let ghost r0 = r@;
        r.push(batch);
        proof {
            assert(batch_views(r@) =~= batch_views(r0).push(str_views(batch@)));
            let rest = pv.skip(start as int);
            if end == paths.len() {
                assert(rest.len() <= batch_size as int);
                assert(str_views(batch@) =~= rest);
                assert(spec_batches(rest, batch_size as int) =~= seq![rest]);
            } else {
                assert(str_views(batch@) =~= rest.subrange(0, batch_size as int));
                assert(rest.skip(batch_size as int) =~= pv.skip(end as int));
            }
            assert(batch_views(r@) + spec_batches(pv.skip(end as int), batch_size as int)
                =~= batch_views(r0) + spec_batches(rest, batch_size as int));
        }
        start = end;
    }
    proof {
        assert(pv.skip(start as int) =~= Seq::empty());
        assert(batch_views(r@) =~= spec_batches(pv, batch_size as int));
    }
    r
}

/// Processes one successfully invoked batch: demultiplexes its combined
/// standard output and re-associates segment `i` with path `i`.  A path
/// whose segment yields no parseable guesses still receives a result
/// with an empty guess sequence; paths beyond the last segment receive
/// none.
pub fn process_batch(paths: &Vec<String>, stdout: &str) -> (r: Vec<FileResult>)
    ensures
        result_views(r@) == spec_process_batch(str_views(paths@), stdout@),
{
    let segs = demux_segments(stdout);
    let ghost sv = segs@.map_values(|x: String| x@);
    let n = if segs.len() <= paths.len() {
        segs.len()
    } else {
        paths.len()
    };
    let mut r: Vec<FileResult> = Vec::new();
    let mut i: usize = 0;
    while i < n
        invariant
            i <= n,
            n <= segs@.len(),
            n <= paths@.len(),
            sv == segs@.map_values(|x: String| x@),
            sv == spec_demux(stdout@),
            n == spec_process_batch(str_views(paths@), stdout@).len(),
            result_views(r@) =~= spec_process_batch(str_views(paths@), stdout@).subrange(
                0,
                i as int,
            ),
        decreases n - i,
    {
        let guesses = match parse_trid_output(&segs[i]) {
            Ok(g) => g,
            Err(_) => Vec::new(),
        };
        let ghost r0 = r@;
        r.push(FileResult { path: paths[i].clone(), guesses });
        proof {
            assert(result_views(r@) =~= result_views(r0).push(r@[i as int]@));
            assert(guess_views(Seq::<Extension>::empty()) =~= Seq::<GuessView>::empty());
            assert(result_views(r@) =~= spec_process_batch(str_views(paths@), stdout@).subrange(
                0,
                i + 1,
            ));
        }
        i = i + 1;
    }
    proof {
        let all = spec_process_batch(str_views(paths@), stdout@);
        assert(all.subrange(0, all.len() as int) =~= all);
    }
    r
}

/// Aggregates a whole run: `outputs[i]` is the captured standard output
/// of batch `i`, or nothing when that batch's invocation failed.  Failed
/// batches contribute no results; the others contribute theirs in batch
/// order.
pub fn aggregate_results(batches: &Vec<Vec<String>>, outputs: &Vec<Option<String>>) -> (r: Vec<
    FileResult,
>)
    requires
        batches@.len() == outputs@.len(),
    ensures
        result_views(r@) == spec_aggregate(batch_views(batches@), opt_views(outputs@)),
{
    let ghost bv = batch_views(batches@);
    let ghost ov = opt_views(outputs@);
    let mut r: Vec<FileResult> = Vec::new();
    let mut i: usize = 0;
    while i < batches.len()
        invariant
            i <= batches@.len(),
            batches@.len() == outputs@.len(),
            bv == batch_views(batches@),
            ov == opt_views(outputs@),
            result_views(r@) =~= spec_aggregate(bv.subrange(0, i as int), ov.subrange(0, i as int)),
        decreases batches@.len() - i,
    {
        let ghost r0 = r@;
        match &outputs[i] {
            Some(out) => {
                let mut part = process_batch(&batches[i], out.as_str());
                let ghost pv = part@;
                r.append(&mut part);
                proof {
                    assert(result_views(r@) =~= result_views(r0) + result_views(pv));
                }
            },
            None => {},
        }
        proof {
            assert(bv.subrange(0, i + 1).drop_last() =~= bv.subrange(0, i as int));
            assert(ov.subrange(0, i + 1).drop_last() =~= ov.subrange(0, i as int));
            assert(bv.subrange(0, i + 1).last() == bv[i as int]);
            assert(ov.subrange(0, i + 1).last() == ov[i as int]);
            assert(result_views(r@) =~= spec_aggregate(
                bv.subrange(0, i + 1),
                ov.subrange(0, i + 1),
            ));
        }
        i = i + 1;
    }
    proof {
        assert(bv.subrange(0, bv.len() as int) =~= bv);
        assert(ov.subrange(0, ov.len() as int) =~= ov);
    }
    r
}

} // verus!
