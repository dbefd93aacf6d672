//! Decisions of the operator commands: where `keygen` writes its key, and
//! which HSM objects `yubihsm keys list` shows, in what order.

use vstd::prelude::*;

verus! {

broadcast use vstd::seq_lib::group_to_multiset_ensures;

/// Options of the `keygen` command: the paths given on the command line.
#[derive(Clone, Debug, Default)]
pub struct KeygenCommand {
    pub output_paths: Vec<String>,
}

impl KeygenCommand {
    /// The path to write the new key to: given only when exactly one path was
    /// named; any other count is a usage error.
    pub fn output_path(&self) -> (r: Option<&String>)
        ensures
            r is Some <==> self.output_paths@.len() == 1,
            r matches Some(p) ==> *p == self.output_paths@[0],
    {
        if self.output_paths.len() == 1 {
            Some(&self.output_paths[0])
        } else {
            None
        }
    }
}

/// Options of the `yubihsm keys list` command.
#[derive(Clone, Debug, Default)]
pub struct ListCommand {
    /// Path to the configuration file.
    pub config: Option<String>,
}

/// An object stored in the HSM, as far as the listing reads it.
#[derive(Clone, Copy, Debug, PartialEq, Eq, Structural)]
pub struct ObjectEntry {
    pub object_id: u16,
    pub is_asymmetric_key: bool,
}

/// The ids of the asymmetric keys among `objects`, in their order.
pub open spec fn asymmetric_ids(objects: Seq<ObjectEntry>) -> Seq<u16>
    decreases objects.len(),
{
    if objects.len() == 0 {
        Seq::empty()
    } else if objects.last().is_asymmetric_key {
        asymmetric_ids(objects.drop_last()).push(objects.last().object_id)
    } else {
        asymmetric_ids(objects.drop_last())
    }
}

/// Ids in ascending order.
pub open spec fn ascending(ids: Seq<u16>) -> bool {
    forall|i: int, j: int| 0 <= i < j < ids.len() ==> ids[i] <= ids[j]
}

impl ListCommand {
    /// The ids of the asymmetric keys among `objects`, each as often as it
    /// occurs, in ascending order: the keys the listing shows.
    pub fn key_ids(objects: &Vec<ObjectEntry>) -> (r: Vec<u16>)
        ensures
            ascending(r@),
            r@.to_multiset() == asymmetric_ids(objects@).to_multiset(),
    {
        let mut out: Vec<u16> = Vec::new();
        let mut i: usize = 0;
        while i < objects.len()
            invariant
                i <= objects@.len(),
                ascending(out@),
                out@.to_multiset() == asymmetric_ids(objects@.take(i as int)).to_multiset(),
            decreases objects@.len() - i,
        {
            let o = objects[i];
            proof {
                assert(objects@.take(i as int + 1).drop_last() =~= objects@.take(i as int));
            }
            if o.is_asymmetric_key {
                let id = o.object_id;
                let mut pos: usize = 0;
                while pos < out.len() && out[pos] <= id
                    invariant
                        pos <= out@.len(),
                        forall|k: int| 0 <= k < pos ==> out@[k] <= id,
                    decreases out@.len() - pos,
                {
                    pos = pos + 1;
                }
                let ghost before = out@;
                out.insert(pos, id);
                proof {
                    assert forall|a: int, b: int| 0 <= a < b < out@.len() implies out@[a] <= out@[b] by {
                        if b < pos {
                        } else if a < pos && b == pos {
                        } else if a < pos {
                            assert(out@[b] == before[b - 1]);
                        } else if a == pos {
                            assert(out@[b] == before[b - 1]);
                            assert(before[pos as int] > id);
                        } else {
                            assert(out@[a] == before[a - 1]);
                            assert(out@[b] == before[b - 1]);
                        }
                    }
                }
            }
            i = i + 1;
        }
        proof {
            assert(objects@.take(objects@.len() as int) =~= objects@);
        }
        out
    }
}

} // verus!
