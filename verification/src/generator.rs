//! The plan of a tree: one directory per ordinal, one file in each, and the
//! running totals of what has been handed out.
//!
//! The generator decides and counts; it touches no disk. Its caller stores
//! each unit it is given and stops at the first one that cannot be stored.

use crate::content::{admissible_content, random_file_content, SIGNATURE_LENGTH};
use crate::random::RandomSource;
use crate::text::{append_decimal, decimal, lemma_decimal_round_trip};
use vstd::prelude::*;
use vstd::string::*;

verus! {

/// What a run is asked to create.
pub struct GenerationRequest {
    /// The directory under which the tree is made.
    pub base_path: String,
    /// How many directories, and as many files.
    pub count: usize,
    /// The size limit of one file, in bytes.
    pub max_size: usize,
    /// Whether every file begins with the test signature.
    pub use_signature: bool,
}

impl GenerationRequest {
    /// A request asks for at least one file of at least one byte.
    pub open spec fn valid(&self) -> bool {
        self.count >= 1 && self.max_size >= 1
    }

    /// Whether the request asks for at least one file of at least one byte.
    pub fn is_valid(&self) -> (valid: bool)
        ensures
            valid == self.valid(),
    {
        self.count >= 1 && self.max_size >= 1
    }
}

/// One directory and the single file in it.
pub struct FileUnit {
    /// The ordinal of the unit, from zero.
    pub index: usize,
    /// The directory's name, below the base path.
    pub dir_name: String,
    /// The file's name, inside the directory.
    pub file_name: String,
    /// The file's bytes.
    pub content: Vec<u8>,
}

/// The time a run took: whole seconds and the nanoseconds beyond them.
#[derive(Clone, Copy, Debug, PartialEq, Eq)]
pub struct Elapsed {
    pub secs: u64,
    pub nanos: u32,
}

impl Elapsed {
    /// The nanoseconds stay below one second.
    pub open spec fn valid(&self) -> bool {
        self.nanos < 1_000_000_000
    }

    /// The time of `secs` seconds and `nanos` nanoseconds, where `nanos` is
    /// less than a second.
    pub fn new(secs: u64, nanos: u32) -> (elapsed: Option<Elapsed>)
        ensures
            nanos < 1_000_000_000 ==> elapsed == Some(Elapsed { secs, nanos }),
            nanos >= 1_000_000_000 ==> elapsed is None,
    {
        if nanos < 1_000_000_000 {
            Some(Elapsed { secs, nanos })
        } else {
            None
        }
    }
}

/// What a completed run amounts to.
#[derive(Clone, Copy, Debug, PartialEq, Eq)]
pub struct GenerationResult {
    /// The bytes of all files together.
    pub total_bytes_written: u128,
    /// Two inodes for every unit: the directory's and the file's.
    pub inode_estimate: u128,
    /// The time the run took.
    pub elapsed: Elapsed,
}

/// The name of the directory of unit `index`.
pub open spec fn dir_name(index: nat) -> Seq<char> {
    seq!['d', 'i', 'r', '_'] + decimal(index)
}

/// The name of the file of unit `index`.
pub open spec fn file_name(index: nat) -> Seq<char> {
    seq!['f', 'i', 'l', 'e', '_'] + decimal(index) + seq!['.', 'b', 'i', 'n']
}

/// The sum of a sequence of lengths.
pub open spec fn sum(lengths: Seq<nat>) -> nat
    decreases lengths.len(),
{
    if lengths.len() == 0 {
        0
    } else {
        sum(lengths.drop_last()) + lengths.last()
    }
}

/// The lengths that a file may have under a limit: with a signature, the
/// limit or the signature's length, whichever is greater; without one, from
/// one byte up to the limit.
pub open spec fn admissible_length(len: nat, max_size: nat, use_signature: bool) -> bool {
    if use_signature {
        len == if max_size > SIGNATURE_LENGTH {
            max_size
        } else {
            SIGNATURE_LENGTH as nat
        }
    } else {
        1 <= len <= max_size
    }
}

/// Whether `unit` is unit `index` of a tree made under the given limit.
pub open spec fn is_unit(unit: FileUnit, index: nat, max_size: nat, use_signature: bool) -> bool {
    &&& unit.index == index
    &&& unit.dir_name@ == dir_name(index)
    &&& unit.file_name@ == file_name(index)
    &&& admissible_content(unit.content@, max_size, use_signature)
}

/// The name of the directory of unit `index`.
pub fn unit_dir_name(index: usize) -> (name: String)
    ensures
        name@ == dir_name(index as nat),
{
    let mut name = String::new();
    name.append("dir_");
    append_decimal(&mut name, index as u128);
    proof {
        reveal_strlit("dir_");
        assert(name@ =~= dir_name(index as nat));
    }
    name
}

/// The name of the file of unit `index`.
pub fn unit_file_name(index: usize) -> (name: String)
    ensures
        name@ == file_name(index as nat),
{
    let mut name = String::new();
    name.append("file_");
    append_decimal(&mut name, index as u128);
    name.append(".bin");
    proof {
        reveal_strlit("file_");
        reveal_strlit(".bin");
        assert(name@ =~= file_name(index as nat));
    }
    name
}

/// Unit `index` of a tree, its file's bytes drawn from `source`.
pub fn plan_unit(
    source: &mut RandomSource,
    index: usize,
    max_size: usize,
    use_signature: bool,
) -> (unit: FileUnit)
    requires
        max_size >= 1,
    ensures
        is_unit(unit, index as nat, max_size as nat, use_signature),
{
    FileUnit {
        index,
        dir_name: unit_dir_name(index),
        file_name: unit_file_name(index),
        content: random_file_content(source, max_size, use_signature),
    }
}

/// A run in progress: what was asked for, how many units have been handed
/// out, and how many bytes they hold.
pub struct TreeGenerator {
    count: usize,
    max_size: usize,
    use_signature: bool,
    produced: usize,
    total: u128,
    lengths: Ghost<Seq<nat>>,
}

impl TreeGenerator {
    /// The number of units asked for.
    pub closed spec fn count(&self) -> nat {
        self.count as nat
    }

    /// The size limit of one file.
    pub closed spec fn max_size(&self) -> nat {
        self.max_size as nat
    }

    /// Whether files begin with the test signature.
    pub closed spec fn use_signature(&self) -> bool {
        self.use_signature
    }

    /// The lengths of the files handed out so far, in order.
    pub closed spec fn lengths(&self) -> Seq<nat> {
        self.lengths@
    }

    /// The bytes handed out so far.
    pub closed spec fn total(&self) -> nat {
        self.total as nat
    }

    /// No more units are handed out than were asked for; each has a length
    /// that the request admits; the total is their sum.
    pub closed spec fn wf(&self) -> bool {
        &&& self.count >= 1
        &&& self.max_size >= 1
        &&& self.produced == self.lengths@.len()
        &&& self.produced <= self.count
        &&& self.total == sum(self.lengths@)
        &&& forall|i: int|
            0 <= i < self.lengths@.len() ==> admissible_length(
                #[trigger] self.lengths@[i],
                self.max_size as nat,
                self.use_signature,
            )
    }

    /// Whether every unit has been handed out.
    pub open spec fn complete(&self) -> bool {
        self.lengths().len() == self.count()
    }

    /// A run of `request`, before its first unit.
    pub fn new(request: &GenerationRequest) -> (generator: Self)
        requires
            request.valid(),
        ensures
            generator.wf(),
            generator.count() == request.count,
            generator.max_size() == request.max_size,
            generator.use_signature() == request.use_signature,
            generator.lengths() == Seq::<nat>::empty(),
            generator.total() == 0,
    {
        TreeGenerator {
            count: request.count,
            max_size: request.max_size,
            use_signature: request.use_signature,
            produced: 0,
            total: 0,
            lengths: Ghost(Seq::empty()),
        }
    }

    /// Whether every unit has been handed out.
    pub fn is_complete(&self) -> (done: bool)
        requires
            self.wf(),
        ensures
            done == self.complete(),
    {
        self.produced == self.count
    }

    /// How many units have been handed out.
    pub fn units_produced(&self) -> (produced: usize)
        requires
            self.wf(),
        ensures
            produced == self.lengths().len(),
    {
        self.produced
    }

    /// The next unit of the run, or `None` once all have been handed out.
    /// The unit's bytes are counted as it is handed out.
    pub fn next_unit(&mut self, source: &mut RandomSource) -> (unit: Option<FileUnit>)
        requires
            old(self).wf(),
        ensures
            final(self).wf(),
            final(self).count() == old(self).count(),
            final(self).max_size() == old(self).max_size(),
            final(self).use_signature() == old(self).use_signature(),
            old(self).complete() ==> unit is None && final(self).lengths() == old(self).lengths(),
            !old(self).complete() ==> unit is Some && is_unit(
                unit->0,
                old(self).lengths().len(),
                old(self).max_size(),
                old(self).use_signature(),
            ) && final(self).lengths() == old(self).lengths().push(unit->0.content@.len()),
            final(self).total() == sum(final(self).lengths()),
    {
        if self.produced == self.count {
            return None;
        }
        let unit = plan_unit(source, self.produced, self.max_size, self.use_signature);
        let len = unit.content.len();
        proof {
            lemma_sum_bound(self.lengths@, Self::cap(self.max_size as nat));
            assert(self.total + len <= u128::MAX) by (nonlinear_arith)
                requires
                    self.total <= self.produced * Self::cap(self.max_size as nat),
                    len <= Self::cap(self.max_size as nat),
                    self.produced < usize::MAX,
                    Self::cap(self.max_size as nat) <= usize::MAX,
                    usize::MAX <= u64::MAX,
            ;
            assert(self.lengths@.push(len as nat).drop_last() =~= self.lengths@);
        }
        self.total = self.total + len as u128;
        self.produced = self.produced + 1;
        self.lengths = Ghost(self.lengths@.push(len as nat));
        Some(unit)
    }

    /// What holds of the files handed out so far: there are no more of them
    /// than were asked for, each has a length that the request admits, and
    /// the total is the sum of their lengths.
    pub proof fn lemma_history(&self)
        requires
            self.wf(),
        ensures
            self.count() >= 1,
            self.max_size() >= 1,
            self.lengths().len() <= self.count(),
            self.total() == sum(self.lengths()),
            forall|i: int|
                0 <= i < self.lengths().len() ==> admissible_length(
                    #[trigger] self.lengths()[i],
                    self.max_size(),
                    self.use_signature(),
                ),
    {
    }

    /// A completed run without signatures has handed out exactly as many
    /// files as were asked for, each of one byte up to the limit, and its
    /// total, the sum of their lengths, lies between the count and the count
    /// times the limit.
    pub proof fn lemma_completed_run(&self)
        requires
            self.wf(),
            self.complete(),
            !self.use_signature(),
        ensures
            self.lengths().len() == self.count(),
            forall|i: int|
                0 <= i < self.lengths().len() ==> 1 <= #[trigger] self.lengths()[i]
                    <= self.max_size(),
            self.total() == sum(self.lengths()),
            self.count() <= self.total() <= self.count() * self.max_size(),
    {
        lemma_sum_bound(self.lengths@, self.max_size as nat);
        lemma_sum_floor(self.lengths@, 1);
    }

    /// A completed run with signatures has handed out exactly as many files
    /// as were asked for, each as long as the limit or as the signature,
    /// whichever is greater.
    pub proof fn lemma_completed_signed_run(&self)
        requires
            self.wf(),
            self.complete(),
            self.use_signature(),
        ensures
            self.lengths().len() == self.count(),
            forall|i: int|
                0 <= i < self.lengths().len() ==> #[trigger] self.lengths()[i] == if self.max_size()
                    > SIGNATURE_LENGTH {
                    self.max_size()
                } else {
                    SIGNATURE_LENGTH as nat
                },
            self.total() == self.count() * if self.max_size() > SIGNATURE_LENGTH {
                self.max_size()
            } else {
                SIGNATURE_LENGTH as nat
            },
    {
        let each = Self::cap(self.max_size as nat);
        lemma_sum_bound(self.lengths@, each);
        lemma_sum_floor(self.lengths@, each);
    }

    /// The longest that a file can be under a limit.
    spec fn cap(max_size: nat) -> nat {
        if max_size > SIGNATURE_LENGTH {
            max_size
        } else {
            SIGNATURE_LENGTH as nat
        }
    }

    /// What the run amounts to, once every unit has been handed out; `None`
    /// before that.
    pub fn result(&self, elapsed: Elapsed) -> (result: Option<GenerationResult>)
        requires
            self.wf(),
        ensures
            !self.complete() ==> result is None,
            self.complete() ==> result == Some(
                GenerationResult {
                    total_bytes_written: sum(self.lengths()) as u128,
                    inode_estimate: (2 * self.count()) as u128,
                    elapsed,
                },
            ),
            sum(self.lengths()) <= u128::MAX,
            2 * self.count() <= u128::MAX,
    {
        if self.produced == self.count {
            Some(
                GenerationResult {
                    total_bytes_written: self.total,
                    inode_estimate: 2 * (self.count as u128),
                    elapsed,
                },
            )
        } else {
            None
        }
    }
}

/// A sum of lengths is at most their number times a bound on each.
proof fn lemma_sum_bound(lengths: Seq<nat>, bound: nat)
    requires
        forall|i: int| 0 <= i < lengths.len() ==> #[trigger] lengths[i] <= bound,
    ensures
        sum(lengths) <= lengths.len() * bound,
    decreases lengths.len(),
{
    if lengths.len() > 0 {
        lemma_sum_bound(lengths.drop_last(), bound);
        assert(sum(lengths) <= lengths.len() * bound) by (nonlinear_arith)
            requires
                sum(lengths) == sum(lengths.drop_last()) + lengths.last(),
                sum(lengths.drop_last()) <= (lengths.len() - 1) * bound,
                lengths.last() <= bound,
        ;
    }
}

/// A sum of lengths is at least their number times a floor under each.
proof fn lemma_sum_floor(lengths: Seq<nat>, floor: nat)
    requires
        forall|i: int| 0 <= i < lengths.len() ==> #[trigger] lengths[i] >= floor,
    ensures
        sum(lengths) >= lengths.len() * floor,
    decreases lengths.len(),
{
    if lengths.len() > 0 {
        lemma_sum_floor(lengths.drop_last(), floor);
        assert(sum(lengths) >= lengths.len() * floor) by (nonlinear_arith)
            requires
                sum(lengths) == sum(lengths.drop_last()) + lengths.last(),
                sum(lengths.drop_last()) >= (lengths.len() - 1) * floor,
                lengths.last() >= floor,
        ;
    }
}

/// The length of admissible content is an admissible length.
pub proof fn lemma_admissible_content_length(content: Seq<u8>, max_size: nat, use_signature: bool)
    requires
        admissible_content(content, max_size, use_signature),
    ensures
        admissible_length(content.len(), max_size, use_signature),
{
}

/// Different units have different directory names and different file names,
/// so a run of `n` units makes `n` directories and `n` files.
pub proof fn lemma_unit_names_distinct(i: nat, j: nat)
    requires
        i != j,
    ensures
        dir_name(i) != dir_name(j),
        file_name(i) != file_name(j),
{
    lemma_decimal_round_trip(i);
    lemma_decimal_round_trip(j);
    if dir_name(i) == dir_name(j) {
        assert(dir_name(i).skip(4) =~= decimal(i));
        assert(dir_name(j).skip(4) =~= decimal(j));
    }
    if file_name(i) == file_name(j) {
        let len = file_name(i).len() as int;
        assert(file_name(i).subrange(5, len - 4) =~= decimal(i));
        assert(file_name(j).subrange(5, len - 4) =~= decimal(j));
    }
}

} // verus!
