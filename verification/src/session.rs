//! Sessions: the inputs the user started the viewer with, kept to start
//! it the same way again.
use vstd::prelude::*;

verus! {

/// What a session reads from.
#[derive(Debug, Clone, Copy, PartialEq, Eq, Structural)]
pub enum SessionType {
    File,
    Command,
    Mixed,
}

/// The inputs of a session and what kind they are.
pub struct Session {
    pub commands: Vec<String>,
    pub stream_type: SessionType,
}

impl Session {
    /// A session over `commands`.
    pub fn new(commands: &Vec<String>, session_type: SessionType) -> (r: Session)
        ensures
            r.commands@.map_values(|s: String| s@) == commands@.map_values(|s: String| s@),
            r.stream_type == session_type,
    {
        let mut copied: Vec<String> = Vec::new();
        let mut i: usize = 0;
        while i < commands.len()
            invariant
                i <= commands@.len(),
                copied@.map_values(|s: String| s@) == commands@.subrange(0, i as int).map_values(|s: String| s@),
            decreases commands@.len() - i,
        {
            let ghost before = copied@.map_values(|s: String| s@);
            copied.push(commands[i].clone());
            assert(copied@.map_values(|s: String| s@) =~= before.push(commands@[i as int]@));
            assert(commands@.subrange(0, i + 1).map_values(|s: String| s@) =~= commands@.subrange(0, i as int).map_values(
                |s: String| s@,
            ).push(commands@[i as int]@));
            i = i + 1;
        }
        assert(commands@.subrange(0, commands@.len() as int) =~= commands@);
        Session { commands: copied, stream_type: session_type }
    }
}

/// The items to remove, given the listed files and the indexes the user
/// chose: the files at those indexes, up to the first index past the end.
pub open spec fn deletion_targets(files: Seq<Seq<char>>, items: Seq<usize>) -> Seq<Seq<char>>
    decreases items.len(),
{
    if items.len() == 0 || items[0] >= files.len() {
        Seq::empty()
    } else {
        seq![files[items[0] as int]] + deletion_targets(files, items.drop_first())
    }
}

/// The files removed for the chosen indexes are, in order, the files at each
/// chosen index, one per index, up to the first index past the end of the
/// list: every index before that one names a removed file, and that one, if
/// any, stops the removal.
pub proof fn law_chosen_files_are_removed(files: Seq<Seq<char>>, items: Seq<usize>)
    ensures
        deletion_targets(files, items).len() <= items.len(),
        forall|k: int| 0 <= k < deletion_targets(files, items).len() ==> #[trigger] items[k] < files.len(),
        forall|k: int| 0 <= k < deletion_targets(files, items).len() ==> #[trigger] deletion_targets(files, items)[k] == files[items[k] as int],
        deletion_targets(files, items).len() < items.len() ==> items[deletion_targets(files, items).len() as int] >= files.len(),
        (forall|k: int| 0 <= k < items.len() ==> #[trigger] items[k] < files.len()) ==> deletion_targets(files, items).len() == items.len(),
    decreases items.len(),
{
    if items.len() > 0 && items[0] < files.len() {
        let rest = items.drop_first();
        law_chosen_files_are_removed(files, rest);
        let d = deletion_targets(files, items);
        let t = deletion_targets(files, rest);
        assert(d == seq![files[items[0] as int]] + t);
        assert forall|k: int| #![trigger items[k]] #![trigger d[k]] 0 <= k < d.len() implies items[k] < files.len() && d[k] == files[items[k] as int] by {
            if k > 0 {
                assert(d[k] == t[k - 1]);
                assert(rest[k - 1] == items[k]);
                assert(rest[k - 1] < files.len());
            } else {
                assert(d[0] == files[items[0] as int]);
            }
        }
        if (forall|k: int| 0 <= k < items.len() ==> #[trigger] items[k] < files.len()) {
            assert forall|k: int| 0 <= k < rest.len() implies #[trigger] rest[k] < files.len() by {
                assert(rest[k] == items[k + 1]);
            }
        }
        if d.len() < items.len() {
            assert(rest[t.len() as int] == items[d.len() as int]);
        }
    } else {
        assert(deletion_targets(files, items) == Seq::<Seq<char>>::empty());
    }
}

/// The files at the chosen indexes, up to the first index past the end.
fn collect_deletions(files: &Vec<String>, items: &Vec<usize>) -> (r: Vec<String>)
    ensures
        r@.map_values(|s: String| s@) == deletion_targets(files@.map_values(|s: String| s@), items@),
{
    let ghost fv = files@.map_values(|s: String| s@);
    let mut out: Vec<String> = Vec::new();
    let mut i: usize = 0;
    assert(items@.subrange(0, items@.len() as int) =~= items@);
    assert(out@.map_values(|s: String| s@) =~= Seq::<Seq<char>>::empty());
    assert(Seq::<Seq<char>>::empty() + deletion_targets(fv, items@) =~= deletion_targets(fv, items@));
    while i < items.len()
        invariant
            i <= items@.len(),
            fv == files@.map_values(|s: String| s@),
            out@.map_values(|s: String| s@) + deletion_targets(fv, items@.subrange(i as int, items@.len() as int))
                == deletion_targets(fv, items@),
        decreases items@.len() - i,
    {
        let ghost rest = items@.subrange(i as int, items@.len() as int);
        assert(rest.drop_first() =~= items@.subrange(i + 1, items@.len() as int));
        if items[i] >= files.len() {
            assert(deletion_targets(fv, rest) == Seq::<Seq<char>>::empty());
            assert(out@.map_values(|s: String| s@) =~= deletion_targets(fv, items@));
            return out;
        }
        let ghost before = out@.map_values(|s: String| s@);
        out.push(files[items[i]].clone());
        assert(out@.map_values(|s: String| s@) =~= before.push(fv[items@[i as int] as int]));
        assert(out@.map_values(|s: String| s@) + deletion_targets(fv, items@.subrange(i + 1, items@.len() as int))
            =~= before + deletion_targets(fv, rest));
        i = i + 1;
    }
    assert(items@.subrange(i as int, items@.len() as int) =~= Seq::<usize>::empty());
    assert(out@.map_values(|s: String| s@) =~= deletion_targets(fv, items@));
    out
}

/// The files to remove for the chosen indexes (see `deletion_targets`).
pub fn files_to_delete(files: &Vec<String>, items: &Vec<usize>) -> (r: Vec<String>)
    ensures
        r@.map_values(|s: String| s@) == deletion_targets(files@.map_values(|s: String| s@), items@),
        r@.len() <= items@.len(),
        forall|k: int| 0 <= k < r@.len() ==> #[trigger] items@[k] < files@.len(),
        forall|k: int| 0 <= k < r@.len() ==> #[trigger] r@[k]@ == files@[items@[k] as int]@,
        r@.len() < items@.len() ==> items@[r@.len() as int] >= files@.len(),
{
    let r = collect_deletions(files, items);
    proof {
        let fv = files@.map_values(|s: String| s@);
        let rv = r@.map_values(|s: String| s@);
        law_chosen_files_are_removed(fv, items@);
        assert(rv.len() == r@.len());
        assert(fv.len() == files@.len());
        assert forall|k: int| #![trigger items@[k]] #![trigger r@[k]] 0 <= k < r@.len() implies items@[k] < files@.len() && r@[k]@ == files@[items@[k] as int]@ by {
            assert(rv[k] == r@[k]@);
            assert(rv[k] == fv[items@[k] as int]);
        }
    }
    r
}

} // verus!
