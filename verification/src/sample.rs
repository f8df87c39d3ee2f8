//! The training sample: a table of features and one label per row.
//!
//! The features stay inside a `polars` frame, which the boosters only hand on
//! to the weak learner and to its hypotheses. What the boosters themselves
//! read, the number of rows and the labels, is held as plain values.

use vstd::prelude::*;
use polars::prelude::DataFrame;
use polars::prelude::Series;

verus! {

/// `polars::prelude::DataFrame`, a table of named columns of one height.
/// Nothing inside a frame is visible to the verifier.
#[verifier::external_type_specification]
#[verifier::external_body]
pub struct ExDataFrame(DataFrame);

/// `polars::prelude::Series`, one named and typed column.
/// Nothing inside a series is visible to the verifier.
#[verifier::external_type_specification]
#[verifier::external_body]
pub struct ExSeries(Series);

/// `polars::prelude::Column`, a column as a frame stores it. It is declared
/// because the operators of `DataFrame` mention it; the library never holds one.
#[verifier::external_type_specification]
#[verifier::external_body]
pub struct ExColumn(polars::prelude::Column);

/// `polars::prelude::PolarsError`, the error of the fallible calls of the
/// crate. It is declared because the operators of `Series` mention it; the
/// library never holds one.
#[verifier::external_type_specification]
#[verifier::external_body]
pub struct ExPolarsError(polars::prelude::PolarsError);

/// The height and the width of a frame: what `DataFrame::shape` returns.
pub uninterp spec fn frame_shape(data: DataFrame) -> (nat, nat);

/// The entries of a series of 64-bit integers, a missing entry as `None`;
/// `None` for a series of any other type.
pub uninterp spec fn series_integers(column: Series) -> Option<Seq<Option<i64>>>;

/// `DataFrame::shape` returns the number of rows and the number of columns
/// of the frame. Both are a function of the frame alone, named `frame_shape`.
pub assume_specification[ DataFrame::shape ](data: &DataFrame) -> (shape: (usize, usize))
    ensures
        shape.0 == frame_shape(*data).0,
        shape.1 == frame_shape(*data).1,
;

/// `DataFrame::empty_with_height` returns a frame without columns whose
/// height is the one that was asked for.
pub assume_specification[ DataFrame::empty_with_height ](height: usize) -> (data: DataFrame)
    ensures
        frame_shape(data).0 == height,
        frame_shape(data).1 == 0,
;

/// Reads a series of 64-bit integers out: `Series::i64`, which fails for a
/// series of another type, then `ChunkedArray::iter`, which yields the
/// entries in order, a missing one as `None`. What comes back is a function
/// of the series alone, named `series_integers`.
#[verifier::external_body]
fn integer_entries(column: &Series) -> (entries: Option<Vec<Option<i64>>>)
    ensures
        entries is Some == series_integers(*column) is Some,
        entries is Some ==> entries->0@ == series_integers(*column)->0,
{
    match column.i64() {
        Ok(values) => Some(values.iter().collect()),
        Err(_) => None,
    }
}

/// Why a frame and a series do not make a sample.
#[derive(Clone, Copy, Debug, PartialEq, Eq, Structural)]
pub enum SampleError {
    /// The series of labels does not hold 64-bit integers.
    TargetNotInteger,
    /// The series of labels has a missing entry.
    MissingLabel,
    /// The series of labels and the frame differ in height.
    LengthMismatch,
}

/// Every entry of `entries` is present.
pub open spec fn all_present(entries: Seq<Option<i64>>) -> bool {
    forall|i: int| 0 <= i < entries.len() ==> (#[trigger] entries[i]) is Some
}

/// The values of a sequence of entries that are all present.
pub open spec fn present_values(entries: Seq<Option<i64>>) -> Seq<i64> {
    Seq::new(entries.len(), |i: int| entries[i]->0)
}

/// Every label is plus one or minus one.
pub open spec fn binary_labels(labels: Seq<i64>) -> bool {
    forall|i: int| 0 <= i < labels.len() ==> (#[trigger] labels[i] == 1 || labels[i] == -1)
}

/// What `Sample::from_dataframe` returns for a frame of height `height` and
/// a series of labels that reads as `entries`.
pub open spec fn labels_of(height: nat, entries: Option<Seq<Option<i64>>>) -> Result<
    Seq<i64>,
    SampleError,
> {
    match entries {
        None => Err(SampleError::TargetNotInteger),
        Some(e) => if !all_present(e) {
            Err(SampleError::MissingLabel)
        } else if e.len() != height {
            Err(SampleError::LengthMismatch)
        } else {
            Ok(present_values(e))
        },
    }
}

/// Unwraps a column of entries; `None` if one of them is missing.
pub fn collect_present(entries: &Vec<Option<i64>>) -> (values: Option<Vec<i64>>)
    ensures
        values is Some == all_present(entries@),
        values is Some ==> values->0@ == present_values(entries@),
{
    let mut values: Vec<i64> = Vec::new();
    let mut k: usize = 0;
    while k < entries.len()
        invariant
            k <= entries.len(),
            values@.len() == k,
            forall|i: int| 0 <= i < k ==> (#[trigger] entries@[i]) is Some,
            forall|i: int| 0 <= i < k ==> values@[i] == (#[trigger] entries@[i])->0,
        decreases entries.len() - k,
    {
        match entries[k] {
            Some(v) => {
                values.push(v);
            },
            None => {
                return None;
            },
        }
        k = k + 1;
    }
    Some(values)
}

/// A fixed collection of labelled examples.
pub struct Sample {
    data: DataFrame,
    target: Vec<i64>,
}

impl Sample {
    #[verifier::type_invariant]
    spec fn well_formed(self) -> bool {
        self.target@.len() == frame_shape(self.data).0
    }

    /// The labels, one per example, in the order of the rows.
    pub closed spec fn labels(self) -> Seq<i64> {
        self.target@
    }

    /// The frame that holds the features.
    pub closed spec fn frame(self) -> DataFrame {
        self.data
    }

    /// The number of examples.
    pub open spec fn size(self) -> nat {
        self.labels().len()
    }

    /// Makes a sample of the features in `data` and the labels in `target`.
    ///
    /// The labels have to be 64-bit integers, none missing, one per row of
    /// the frame.
    pub fn from_dataframe(data: DataFrame, target: &Series) -> (made: Result<Sample, SampleError>)
        ensures
            match labels_of(frame_shape(data).0, series_integers(*target)) {
                Ok(labels) => made is Ok && made->Ok_0.labels() == labels && made->Ok_0.frame()
                    == data,
                Err(e) => made == Err::<Sample, SampleError>(e),
            },
    {
        match integer_entries(target) {
            None => Err(SampleError::TargetNotInteger),
            Some(entries) => Sample::from_entries(data, &entries),
        }
    }

    /// Makes a sample of the features in `data` and the labels in `entries`,
    /// one entry per row of the frame.
    pub fn from_entries(data: DataFrame, entries: &Vec<Option<i64>>) -> (made: Result<
        Sample,
        SampleError,
    >)
        ensures
            match labels_of(frame_shape(data).0, Some(entries@)) {
                Ok(labels) => made is Ok && made->Ok_0.labels() == labels && made->Ok_0.frame()
                    == data,
                Err(e) => made == Err::<Sample, SampleError>(e),
            },
    {
        let height = data.shape().0;
        match collect_present(entries) {
            None => Err(SampleError::MissingLabel),
            Some(target) => {
                if target.len() != height {
                    Err(SampleError::LengthMismatch)
                } else {
                    Ok(Sample { data, target })
                }
            },
        }
    }

    /// Makes a sample without features of the labels in `target`.
    pub fn from_labels(target: Vec<i64>) -> (made: Sample)
        ensures
            made.labels() == target@,
            frame_shape(made.frame()) == (target@.len(), 0nat),
    {
        let data = DataFrame::empty_with_height(target.len());
        Sample { data, target }
    }

    /// The number of examples and the number of features.
    pub fn shape(&self) -> (shape: (usize, usize))
        ensures
            shape.0 == self.size(),
            shape.0 == frame_shape(self.frame()).0,
            shape.1 == frame_shape(self.frame()).1,
    {
        proof {
            use_type_invariant(self);
        }
        let shape = self.data.shape();
        (self.target.len(), shape.1)
    }

    /// The labels.
    pub fn target(&self) -> (labels: &[i64])
        ensures
            labels@ == self.labels(),
    {
        self.target.as_slice()
    }

    /// The frame that holds the features.
    pub fn data(&self) -> (data: &DataFrame)
        ensures
            *data == self.frame(),
    {
        &self.data
    }

    /// Whether every label is plus one or minus one.
    pub fn is_valid_binary_instance(&self) -> (ok: bool)
        ensures
            ok == binary_labels(self.labels()),
    {
        let mut k: usize = 0;
        while k < self.target.len()
            invariant
                k <= self.target.len(),
                forall|i: int|
                    0 <= i < k ==> (#[trigger] self.target@[i] == 1 || self.target@[i] == -1),
            decreases self.target.len() - k,
        {
            if self.target[k] != 1 && self.target[k] != -1 {
                return false;
            }
            k = k + 1;
        }
        true
    }
}

} // verus!
