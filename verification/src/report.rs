//! What a completed scan reports: the heavy folders it found, largest first,
//! and their total size.

use vstd::multiset::{lemma_multiset_empty_len, Multiset};
use vstd::prelude::*;
use vstd::seq_lib::{to_multiset_build, to_multiset_remove};

verus! {

/// A matched folder is reported only if it holds more than this many bytes.
pub const MIN_REPORTED_SIZE: u64 = 1_000_000;

/// One heavy folder that a scan found.
#[derive(Debug, PartialEq, Eq)]
pub struct FolderInfo {
    /// The folder's path.
    pub path: String,
    /// The name of the parent directory, a slash and the folder's own name.
    pub name: String,
    /// The bytes held by the files below the folder.
    pub size: u64,
    /// The number of those files.
    pub file_count: u64,
}

/// The mathematical content of a [`FolderInfo`].
pub ghost struct FolderRecord {
    pub path: Seq<char>,
    pub name: Seq<char>,
    pub size: nat,
    pub file_count: nat,
}

impl View for FolderInfo {
    type V = FolderRecord;

    open spec fn view(&self) -> FolderRecord {
        FolderRecord {
            path: self.path@,
            name: self.name@,
            size: self.size as nat,
            file_count: self.file_count as nat,
        }
    }
}

impl Clone for FolderInfo {
    fn clone(&self) -> (r: Self)
        ensures
            r@ == self@,
    {
        FolderInfo {
            path: self.path.clone(),
            name: self.name.clone(),
            size: self.size,
            file_count: self.file_count,
        }
    }
}

/// The records held by a sequence of folders, in the same order.
pub open spec fn records_of(folders: Seq<FolderInfo>) -> Seq<FolderRecord> {
    folders.map_values(|f: FolderInfo| f@)
}

/// The sum of the sizes of `records`.
pub open spec fn total_size_of(records: Seq<FolderRecord>) -> nat
    decreases records.len(),
{
    if records.len() == 0 {
        0
    } else {
        total_size_of(records.drop_last()) + records.last().size
    }
}

/// No record is followed by a larger one.
pub open spec fn sorted_by_size_descending(records: Seq<FolderRecord>) -> bool {
    forall|i: int, j: int|
        0 <= i <= j < records.len() ==> (#[trigger] records[i]).size >= (#[trigger] records[j]).size
}

/// Every record is larger than [`MIN_REPORTED_SIZE`].
pub open spec fn all_above_threshold(records: Seq<FolderRecord>) -> bool {
    forall|i: int| 0 <= i < records.len() ==> (#[trigger] records[i]).size > MIN_REPORTED_SIZE
}

/// The records of the given size, in the order in which `records` holds
/// them.
pub open spec fn of_size(records: Seq<FolderRecord>, size: nat) -> Seq<FolderRecord> {
    records.filter(|r: FolderRecord| r.size == size)
}

/// The result of a completed scan.
#[derive(Debug, PartialEq, Eq)]
pub struct ScanResult {
    /// The heavy folders found, largest first.
    pub folders: Vec<FolderInfo>,
    /// The sum of the sizes of `folders`.
    pub total_size: u64,
    /// The root that was scanned.
    pub scan_path: String,
}

impl ScanResult {
    /// The records of the reported folders, in their order.
    pub open spec fn records(&self) -> Seq<FolderRecord> {
        records_of(self.folders@)
    }

    /// What holds of every result that a scan returns: the folders are in
    /// non-increasing order of size, each is larger than
    /// [`MIN_REPORTED_SIZE`], and `total_size` is the exact sum of their
    /// sizes.
    pub open spec fn wf(&self) -> bool {
        &&& sorted_by_size_descending(self.records())
        &&& all_above_threshold(self.records())
        &&& self.total_size as nat == total_size_of(self.records())
    }
}

/// The total of a sequence grows by the size of a record pushed onto it.
pub proof fn lemma_total_push(records: Seq<FolderRecord>, record: FolderRecord)
    ensures
        total_size_of(records.push(record)) == total_size_of(records) + record.size,
{
    assert(records.push(record).drop_last() =~= records);
}

/// Inserting a record anywhere adds its size to the total.
proof fn lemma_total_insert(records: Seq<FolderRecord>, at: int, record: FolderRecord)
    requires
        0 <= at <= records.len(),
    ensures
        total_size_of(records.insert(at, record)) == total_size_of(records) + record.size,
    decreases records.len() - at,
{
    if at == records.len() {
        assert(records.insert(at, record) =~= records.push(record));
        lemma_total_push(records, record);
    } else {
        let longer = records.insert(at, record);
        assert(longer.drop_last() =~= records.drop_last().insert(at, record));
        assert(longer.last() == records.last());
        lemma_total_insert(records.drop_last(), at, record);
    }
}

/// Two sequences with the same records, in whatever order, have the same
/// total.
pub proof fn lemma_total_of_permutation(a: Seq<FolderRecord>, b: Seq<FolderRecord>)
    requires
        a.to_multiset() == b.to_multiset(),
    ensures
        total_size_of(a) == total_size_of(b),
    decreases a.len(),
{
    a.to_multiset_ensures();
    b.to_multiset_ensures();
    if a.len() == 0 {
        assert(b.len() == 0);
    } else {
        let last = a.last();
        assert(a.contains(last));
        assert(b.to_multiset().count(last) > 0);
        assert(b.contains(last));
        let at = choose|at: int| 0 <= at < b.len() && b[at] == last;
        let shorter = b.remove(at);
        to_multiset_remove(b, at);
        to_multiset_remove(a, a.len() - 1);
        assert(a.remove(a.len() - 1) =~= a.drop_last());
        lemma_total_of_permutation(a.drop_last(), shorter);
        assert(shorter.insert(at, last) =~= b);
        lemma_total_insert(shorter, at, last);
    }
}

/// A record inserted into a sequence joins its multiset.
proof fn lemma_multiset_insert(records: Seq<FolderRecord>, at: int, record: FolderRecord)
    requires
        0 <= at <= records.len(),
    ensures
        records.insert(at, record).to_multiset() == records.to_multiset().insert(record),
{
    let longer = records.insert(at, record);
    to_multiset_remove(longer, at);
    longer.to_multiset_ensures();
    assert(longer.remove(at) =~= records);
    assert(longer[at] == record);
    assert(longer.contains(record));
    assert(longer.to_multiset() =~= records.to_multiset().insert(record));
}

/// A sequence without records has the empty multiset.
proof fn lemma_multiset_of_empty(records: Seq<FolderRecord>)
    requires
        records.len() == 0,
    ensures
        records.to_multiset() == Multiset::<FolderRecord>::empty(),
{
    records.to_multiset_ensures();
    lemma_multiset_empty_len(records.to_multiset());
    assert(records.to_multiset() =~= Multiset::<FolderRecord>::empty());
}

/// The records of one size within a concatenation are those of its parts.
proof fn lemma_of_size_concat(a: Seq<FolderRecord>, b: Seq<FolderRecord>, size: nat)
    ensures
        of_size(a + b, size) == of_size(a, size) + of_size(b, size),
{
    Seq::filter_distributes_over_add(a, b, |r: FolderRecord| r.size == size);
}

/// A single record is of its own size and of no other.
proof fn lemma_of_size_single(record: FolderRecord, size: nat)
    ensures
        record.size == size ==> of_size(seq![record], size) == seq![record],
        record.size != size ==> of_size(seq![record], size) == Seq::<FolderRecord>::empty(),
{
    reveal_with_fuel(Seq::filter, 2);
    assert(seq![record].drop_last() =~= Seq::<FolderRecord>::empty());
    if record.size == size {
        assert(of_size(seq![record], size) =~= seq![record]);
    } else {
        assert(of_size(seq![record], size) =~= Seq::<FolderRecord>::empty());
    }
}

/// Records that are all of other sizes hold none of the given size.
proof fn lemma_of_size_none(records: Seq<FolderRecord>, size: nat)
    requires
        forall|i: int| 0 <= i < records.len() ==> (#[trigger] records[i]).size != size,
    ensures
        of_size(records, size) == Seq::<FolderRecord>::empty(),
    decreases records.len(),
{
    reveal_with_fuel(Seq::filter, 1);
    if records.len() > 0 {
        lemma_of_size_none(records.drop_last(), size);
    }
    assert(of_size(records, size) =~= Seq::<FolderRecord>::empty());
}

/// A record inserted behind larger records only comes first among the
/// records of its size, and leaves the records of every other size as they
/// were.
proof fn lemma_of_size_insert(
    records: Seq<FolderRecord>,
    at: int,
    record: FolderRecord,
    size: nat,
)
    requires
        0 <= at <= records.len(),
        forall|k: int| 0 <= k < at ==> (#[trigger] records[k]).size > record.size,
    ensures
        record.size == size ==> of_size(records.insert(at, record), size) == seq![record]
            + of_size(records, size),
        record.size != size ==> of_size(records.insert(at, record), size) == of_size(
            records,
            size,
        ),
{
    let front = records.take(at);
    let back = records.skip(at);
    assert(records =~= front + back);
    assert(records.insert(at, record) =~= (front + seq![record]) + back);
    lemma_of_size_concat(front, back, size);
    lemma_of_size_concat(front + seq![record], back, size);
    lemma_of_size_concat(front, seq![record], size);
    lemma_of_size_single(record, size);
    if record.size == size {
        lemma_of_size_none(front, size);
        assert(of_size(records.insert(at, record), size) =~= seq![record] + of_size(
            records,
            size,
        ));
    } else {
        assert(of_size(records.insert(at, record), size) =~= of_size(records, size));
    }
}

/// Orders folders by size, largest first. The result holds exactly the
/// records of the input, and the folders of any one size keep the order in
/// which they came.
pub fn sort_by_size_descending(folders: Vec<FolderInfo>) -> (r: Vec<FolderInfo>)
    ensures
        sorted_by_size_descending(records_of(r@)),
        records_of(r@).to_multiset() == records_of(folders@).to_multiset(),
        forall|size: nat|
            #[trigger] of_size(records_of(r@), size) == of_size(records_of(folders@), size),
        r@.len() == folders@.len(),
{
    let ghost all = records_of(folders@);
    let mut rest = folders;
    let mut sorted: Vec<FolderInfo> = Vec::new();
    proof {
        lemma_multiset_of_empty(records_of(sorted@));
        assert(records_of(sorted@).to_multiset().add(all.to_multiset()) =~= all.to_multiset());
        assert(records_of(sorted@) =~= all.skip(all.len() as int));
        assert(records_of(rest@) =~= all.take(all.len() as int));
    }
    while rest.len() > 0
        invariant
            sorted_by_size_descending(records_of(sorted@)),
            records_of(sorted@).to_multiset().add(records_of(rest@).to_multiset())
                == all.to_multiset(),
            sorted@.len() + rest@.len() == all.len(),
            records_of(rest@) == all.take(rest@.len() as int),
            forall|size: nat|
                #[trigger] of_size(records_of(sorted@), size) == of_size(
                    all.skip(rest@.len() as int),
                    size,
                ),
        decreases rest@.len(),
    {
        let ghost rest_before = records_of(rest@);
        let ghost sorted_before = records_of(sorted@);
        let next = rest.pop().unwrap();
        proof {
            assert(records_of(rest@) =~= rest_before.drop_last());
            assert(rest_before =~= records_of(rest@).push(next@));
            to_multiset_build(records_of(rest@), next@);
            assert(next@ == all.take(rest@.len() as int + 1).last());
        }
        let mut at: usize = 0;
        while at < sorted.len() && sorted[at].size > next.size
            invariant
                0 <= at <= sorted@.len(),
                forall|k: int| 0 <= k < at ==> (#[trigger] records_of(sorted@)[k]).size > next.size,
            decreases sorted@.len() - at,
        {
            at += 1;
        }
        sorted.insert(at, next);
        proof {
            assert(records_of(sorted@) =~= sorted_before.insert(at as int, next@));
            lemma_multiset_insert(sorted_before, at as int, next@);
            assert(records_of(sorted@).to_multiset().add(records_of(rest@).to_multiset())
                =~= sorted_before.to_multiset().add(rest_before.to_multiset()));
            assert(all.skip(rest@.len() as int) =~= seq![next@] + all.skip(rest@.len() as int + 1));
            assert forall|size: nat| #[trigger]
                of_size(records_of(sorted@), size) == of_size(
                    all.skip(rest@.len() as int),
                    size,
                ) by {
                lemma_of_size_insert(sorted_before, at as int, next@, size);
                lemma_of_size_concat(seq![next@], all.skip(rest@.len() as int + 1), size);
                lemma_of_size_single(next@, size);
                assert(Seq::<FolderRecord>::empty() + of_size(sorted_before, size) =~= of_size(
                    sorted_before,
                    size,
                ));
            }
            let now = records_of(sorted@);
            assert forall|i: int, j: int| 0 <= i <= j < now.len() implies (#[trigger] now[i]).size
                >= (#[trigger] now[j]).size by {
                let before_i = if i < at { i } else { i - 1 };
                let before_j = if j < at { j } else { j - 1 };
                if i != at && j != at {
                    assert(now[i] == sorted_before[before_i]);
                    assert(now[j] == sorted_before[before_j]);
                } else if i == at && j != at {
                    assert(now[j] == sorted_before[before_j]);
                    assert(sorted_before[at as int].size <= next.size);
                    assert(sorted_before[at as int].size >= sorted_before[before_j].size);
                } else if i != at && j == at {
                    assert(now[i] == sorted_before[before_i]);
                }
            }
        }
    }
    proof {
        lemma_multiset_of_empty(records_of(rest@));
        assert(records_of(sorted@).to_multiset().add(records_of(rest@).to_multiset())
            =~= records_of(sorted@).to_multiset());
        assert(all.skip(0) =~= all);
    }
    sorted
}

} // verus!
