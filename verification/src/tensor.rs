//! Tensors of single-precision numbers, held as their IEEE 754 bit patterns.
use vstd::prelude::*;

use crate::error::{GigaamError, GigaamErrorView};

verus! {

/// The bit pattern of negative infinity.
pub const NEG_INFINITY: u32 = 0xff80_0000;

/// The bit pattern without its sign.
pub open spec fn magnitude(b: u32) -> int {
    if b >= 0x8000_0000 {
        b - 0x8000_0000
    } else {
        b as int
    }
}

/// `b` encodes no number.
pub open spec fn is_nan(b: u32) -> bool {
    magnitude(b) > 0x7f80_0000
}

/// An integer by which the encoded numbers are ordered; the two zeros share one.
pub open spec fn rank(b: u32) -> int {
    if b >= 0x8000_0000 {
        -magnitude(b)
    } else {
        magnitude(b)
    }
}

/// The number that `a` encodes is greater than the one that `b` encodes.
pub open spec fn greater(a: u32, b: u32) -> bool {
    !is_nan(a) && !is_nan(b) && rank(a) > rank(b)
}

/// `r` is where the greatest number of `row` stands first. Where `row` holds no
/// number above negative infinity, `r` is 0.
pub open spec fn is_argmax(row: Seq<u32>, r: int) -> bool {
    if exists|i: int| 0 <= i < row.len() && greater(#[trigger] row[i], NEG_INFINITY) {
        &&& 0 <= r < row.len()
        &&& greater(row[r], NEG_INFINITY)
        &&& forall|i: int| 0 <= i < row.len() ==> !greater(#[trigger] row[i], row[r])
        &&& forall|i: int| 0 <= i < r ==> is_nan(#[trigger] row[i]) || greater(row[r], row[i])
    } else {
        r == 0
    }
}

/// The index of the greatest number of `row`.
pub open spec fn argmax_of(row: Seq<u32>) -> int {
    choose|r: int| is_argmax(row, r)
}

/// A row has one index of its greatest number, and `argmax_of` is it.
pub proof fn argmax_is_unique(row: Seq<u32>, r: int)
    requires
        is_argmax(row, r),
    ensures
        argmax_of(row) == r,
{
    let m = argmax_of(row);
    assert(is_argmax(row, m));
    if exists|i: int| 0 <= i < row.len() && greater(#[trigger] row[i], NEG_INFINITY) {
        assert(!greater(row[m], row[r]));
        assert(!greater(row[r], row[m]));
    }
}

fn is_greater(a: u32, b: u32) -> (r: bool)
    ensures
        r == greater(a, b),
{
    let ma: u32 = if a >= 0x8000_0000 {
        a - 0x8000_0000
    } else {
        a
    };
    let mb: u32 = if b >= 0x8000_0000 {
        b - 0x8000_0000
    } else {
        b
    };
    if ma > 0x7f80_0000 || mb > 0x7f80_0000 {
        return false;
    }
    if a >= 0x8000_0000 {
        b >= 0x8000_0000 && ma < mb
    } else if b >= 0x8000_0000 {
        ma > 0 || mb > 0
    } else {
        ma > mb
    }
}

/// Where the greatest number of `row` stands first; 0 where there is none above
/// negative infinity.
pub fn argmax(row: &[u32]) -> (best: usize)
    ensures
        is_argmax(row@, best as int),
        best == argmax_of(row@),
        best == 0 || best < row@.len(),
{
    let mut best: usize = 0;
    let mut best_val: u32 = NEG_INFINITY;
    let mut i: usize = 0;
    while i < row.len()
        invariant
            i <= row@.len(),
            best_val == NEG_INFINITY ==> best == 0 && forall|j: int|
                0 <= j < i ==> !greater(#[trigger] row@[j], NEG_INFINITY),
            best_val != NEG_INFINITY ==> {
                &&& best < i
                &&& best_val == row@[best as int]
                &&& greater(best_val, NEG_INFINITY)
                &&& forall|j: int| 0 <= j < i ==> !greater(#[trigger] row@[j], best_val)
                &&& forall|j: int|
                    0 <= j < best ==> is_nan(#[trigger] row@[j]) || greater(best_val, row@[j])
            },
        decreases row.len() - i,
    {
        if is_greater(row[i], best_val) {
            best_val = row[i];
            best = i;
        }
        i = i + 1;
    }
    proof {
        argmax_is_unique(row@, best as int);
    }
    best
}

/// The number of elements of a tensor of this shape.
pub open spec fn volume(shape: Seq<usize>) -> nat
    decreases shape.len(),
{
    if shape.len() == 0 {
        1
    } else {
        shape.first() as nat * volume(shape.drop_first())
    }
}

/// A tensor in row-major order.
#[derive(Debug)]
pub struct Tensor {
    pub shape: Vec<usize>,
    pub data: Vec<u32>,
}

/// A `Tensor` as its two sequences.
#[verifier::ext_equal]
pub struct TensorView {
    pub shape: Seq<usize>,
    pub data: Seq<u32>,
}

impl View for Tensor {
    type V = TensorView;

    open spec fn view(&self) -> TensorView {
        TensorView { shape: self.shape@, data: self.data@ }
    }
}

impl TensorView {
    /// The shape accounts for every element.
    pub open spec fn wf(self) -> bool {
        volume(self.shape) == self.data.len()
    }
}

/// The tensor of that shape that holds zeros.
pub open spec fn zeros_of(shape: Seq<usize>, n: nat) -> TensorView {
    TensorView { shape, data: Seq::new(n, |i: int| 0u32) }
}

impl Tensor {
    /// A second tensor with the same shape and elements.
    pub fn duplicate(&self) -> (r: Tensor)
        ensures
            r@ == self@,
    {
        let shape = self.shape.clone();
        let data = self.data.clone();
        assert(shape@ =~= self.shape@);
        assert(data@ =~= self.data@);
        Tensor { shape, data }
    }
}

/// What a run of the network gave under one output's name.
#[derive(Debug)]
pub enum Output<T> {
    /// The network has no such output.
    Missing,
    /// The output is not of the expected type; the runtime's words.
    Unreadable(String),
    /// The output's value.
    Ready(T),
}

/// The failure that stands for an output `o` expected under `name`.
pub open spec fn output_error<T>(o: Output<T>, name: Seq<char>) -> Option<GigaamErrorView> {
    match o {
        Output::Missing => Some(GigaamErrorView::OutputNotFound(name)),
        Output::Unreadable(m) => Some(GigaamErrorView::Ort(m@)),
        Output::Ready(_) => None,
    }
}

/// The value of an output, or the failure that its absence is.
pub fn take_output<T>(o: Output<T>, name: &str) -> (r: Result<T, GigaamError>)
    ensures
        match r {
            Ok(v) => o == Output::Ready(v),
            Err(e) => output_error(o, name@) == Some(e@),
        },
{
    match o {
        Output::Missing => Err(GigaamError::OutputNotFound(name.to_owned())),
        Output::Unreadable(m) => Err(GigaamError::Ort(m)),
        Output::Ready(v) => Ok(v),
    }
}

/// Scores are ordered as the numbers they encode: numbers with a plus by their
/// bits, numbers with a minus the other way round, any of the former above any
/// of the latter but for the two zeros, which are equal. What encodes no number
/// is neither above nor below anything.
pub proof fn scores_are_ordered(a: u32, b: u32)
    ensures
        a <= 0x7f80_0000 && b <= 0x7f80_0000 ==> (greater(a, b) <==> a > b),
        0x8000_0000 <= a <= 0xff80_0000 && 0x8000_0000 <= b <= 0xff80_0000 ==> (greater(a, b)
            <==> a < b),
        a <= 0x7f80_0000 && 0x8000_0000 <= b <= 0xff80_0000 ==> !greater(b, a) && (greater(a, b)
            <==> a != 0 || b != 0x8000_0000),
        0x7f80_0000 < a < 0x8000_0000 || a > 0xff80_0000 ==> !greater(a, b) && !greater(b, a),
{
}

proof fn lemma_argmax_exists(row: Seq<u32>) -> (r: int)
    ensures
        is_argmax(row, r),
    decreases row.len(),
{
    if row.len() == 0 {
        0
    } else {
        let shorter = row.drop_last();
        let r = lemma_argmax_exists(shorter);
        let last = row.len() - 1;
        assert forall|i: int| 0 <= i < shorter.len() implies #[trigger] shorter[i] == row[i] by {}
        if exists|i: int| 0 <= i < shorter.len() && greater(#[trigger] shorter[i], NEG_INFINITY) {
            let i = choose|i: int|
                0 <= i < shorter.len() && greater(#[trigger] shorter[i], NEG_INFINITY);
            assert(greater(row[i], NEG_INFINITY));
            if greater(row[last], row[r]) {
                assert forall|j: int| 0 <= j < row.len() implies !greater(
                    #[trigger] row[j],
                    row[last],
                ) by {
                    if j < last {
                        assert(!greater(shorter[j], shorter[r]));
                    }
                }
                assert forall|j: int| 0 <= j < last implies is_nan(#[trigger] row[j]) || greater(
                    row[last],
                    row[j],
                ) by {
                    assert(!greater(shorter[j], shorter[r]));
                }
                last
            } else {
                assert forall|j: int| 0 <= j < row.len() implies !greater(
                    #[trigger] row[j],
                    row[r],
                ) by {
                    if j < last {
                        assert(!greater(shorter[j], shorter[r]));
                    }
                }
                assert forall|j: int| 0 <= j < r implies is_nan(#[trigger] row[j]) || greater(
                    row[r],
                    row[j],
                ) by {
                    assert(is_nan(shorter[j]) || greater(shorter[r], shorter[j]));
                }
                r
            }
        } else {
            assert forall|j: int| 0 <= j < last implies !greater(
                #[trigger] row[j],
                NEG_INFINITY,
            ) by {
                assert(!greater(shorter[j], NEG_INFINITY));
            }
            if greater(row[last], NEG_INFINITY) {
                last
            } else {
                assert(forall|j: int|
                    0 <= j < row.len() ==> !greater(#[trigger] row[j], NEG_INFINITY));
                0
            }
        }
    }
}

/// Of a row of scores the greatest is chosen, and of several equal ones the
/// first, wherever it stands and however long the row is. Where no score is
/// above negative infinity, the first place is chosen.
pub proof fn greatest_score_is_chosen(row: Seq<u32>, i: int)
    requires
        0 <= i < row.len(),
    ensures
        0 <= argmax_of(row) < row.len(),
        !greater(row[i], row[argmax_of(row)]) || !greater(row[i], 0xff80_0000),
        greater(row[i], 0xff80_0000) ==> {
            &&& greater(row[argmax_of(row)], 0xff80_0000)
            &&& i < argmax_of(row) ==> greater(row[argmax_of(row)], row[i])
        },
        (forall|j: int| 0 <= j < row.len() ==> !greater(#[trigger] row[j], 0xff80_0000))
            ==> argmax_of(row) == 0,
{
    let r = lemma_argmax_exists(row);
    argmax_is_unique(row, r);
}

/// The elements of a tensor are as many as the product of its dimensions.
pub proof fn volume_is_product(a: Seq<usize>, b: Seq<usize>, n: usize)
    ensures
        volume(a + b) == volume(a) * volume(b),
        volume(seq![n]) == n,
        volume(Seq::<usize>::empty()) == 1,
    decreases a.len(),
{
    reveal_with_fuel(volume, 2);
    assert(seq![n].drop_first() =~= Seq::<usize>::empty());
    assert(volume(seq![n]) == n) by (nonlinear_arith)
        requires
            volume(seq![n]) == n * 1,
    ;
    if a.len() == 0 {
        assert(a + b =~= b);
        assert(volume(a + b) == volume(a) * volume(b)) by (nonlinear_arith)
            requires
                volume(a + b) == volume(b),
                volume(a) == 1,
        ;
    } else {
        volume_is_product(a.drop_first(), b, n);
        assert((a + b).drop_first() =~= a.drop_first() + b);
        let x = a.first() as nat;
        let y = volume(a.drop_first());
        let z = volume(b);
        assert(x * (y * z) == (x * y) * z) by (nonlinear_arith);
    }
}

/// A tensor stands for its shape and its elements, all of them in order; an
/// output that is missing is a failure by its name, and one that cannot be read
/// a failure with the runtime's words.
pub proof fn outputs_stand_for_their_values(t: Tensor, name: Seq<char>, words: String)
    ensures
        t@.shape == t.shape@,
        t@.data == t.data@,
        t@.wf() <==> t.data@.len() == volume(t.shape@),
        output_error(Output::Ready(t), name) is None,
        output_error(Output::<Tensor>::Missing, name) == Some(
            GigaamErrorView::OutputNotFound(name),
        ),
        output_error(Output::<Tensor>::Unreadable(words), name) == Some(
            GigaamErrorView::Ort(words@),
        ),
{
}

} // verus!
