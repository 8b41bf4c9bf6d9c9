//! Pulling a policy towards a reference policy.

use vstd::prelude::*;

use crate::arith::Arith;
use crate::linalg::v_zeros;
use crate::matrix::zeros;
use crate::scalar::{lit, Scalar, NEG_INFINITY, ZERO};

verus! {

/// The sum of the first `k` numbers, from the left.
pub open spec fn sum_upto<A: Arith>(s: Seq<Scalar>, k: nat) -> Scalar
    decreases k,
{
    if k == 0 {
        lit(ZERO)
    } else {
        A::plus(sum_upto::<A>(s, (k - 1) as nat), s[k - 1])
    }
}

/// The largest of the first `k` numbers; NaNs do not count.
pub open spec fn max_upto(s: Seq<Scalar>, k: nat) -> Scalar
    decreases k,
{
    if k == 0 {
        lit(NEG_INFINITY)
    } else {
        max_upto(s, (k - 1) as nat).max(s[k - 1])
    }
}

/// The chosen entries of `y`, divided by the temperature.
pub open spec fn logits<A: Arith>(y: Seq<Scalar>, valid: Seq<usize>, temp: Scalar) -> Seq<Scalar> {
    Seq::new(valid.len(), |i: int| A::over(y[valid[i] as int], temp))
}

/// The logarithms of the softmax of a list.
pub open spec fn log_softmax<A: Arith>(x: Seq<Scalar>) -> Seq<Scalar> {
    let max = max_upto(x, x.len());
    let shifted = Seq::new(x.len(), |i: int| A::exp(A::minus(x[i], max)));
    let lse = A::plus(A::log(sum_upto::<A>(shifted, x.len())), max);
    Seq::new(x.len(), |i: int| A::minus(x[i], lse))
}

/// The gradient of the divergence of the distribution with logarithms `live`
/// from the one with logarithms `target`.
pub open spec fn divergence_gradient<A: Arith>(
    live: Seq<Scalar>,
    target: Seq<Scalar>,
) -> Seq<Scalar> {
    let terms = Seq::new(
        live.len(),
        |i: int| A::times(A::exp(live[i]), A::minus(live[i], target[i])),
    );
    let kl = sum_upto::<A>(terms, live.len());
    Seq::new(
        live.len(),
        |i: int|
            A::times(A::exp(live[i]), A::minus(A::minus(live[i], target[i]), kl)),
    )
}

/// The first `k` entries of `g` put at their places in a list of `n` zeros.
pub open spec fn scattered(g: Seq<Scalar>, valid: Seq<usize>, n: nat, k: nat) -> Seq<Scalar>
    decreases k,
{
    if k == 0 {
        v_zeros(n)
    } else {
        scattered(g, valid, n, (k - 1) as nat).update(valid[k - 1] as int, g[k - 1])
    }
}

/// Every number is finite.
pub open spec fn all_finite(s: Seq<Scalar>) -> bool {
    forall|i: int| 0 <= i < s.len() ==> (#[trigger] s[i]).is_finite()
}

/// The gradient of the divergence of a policy with outputs `y` from one with
/// outputs `target`, over the valid actions; zero throughout where a number is
/// not finite.
pub open spec fn kl_gradient<A: Arith>(
    y: Seq<Scalar>,
    target: Seq<Scalar>,
    valid: Seq<usize>,
    temp: Scalar,
) -> Seq<Scalar> {
    let g = divergence_gradient::<A>(
        log_softmax::<A>(logits::<A>(y, valid, temp)),
        log_softmax::<A>(logits::<A>(target, valid, temp)),
    );
    let full = scattered(g, valid, y.len(), valid.len());
    if all_finite(full) {
        full
    } else {
        v_zeros(y.len())
    }
}

/// The gradient has one finite entry per action.
pub proof fn law_kl_gradient_is_finite<A: Arith>(
    y: Seq<Scalar>,
    target: Seq<Scalar>,
    valid: Seq<usize>,
    temp: Scalar,
)
    requires
        forall|i: int| 0 <= i < valid.len() ==> #[trigger] valid[i] < y.len(),
    ensures
        all_finite(kl_gradient::<A>(y, target, valid, temp)),
        kl_gradient::<A>(y, target, valid, temp).len() == y.len(),
{
    lemma_scattered_len(
        divergence_gradient::<A>(
            log_softmax::<A>(logits::<A>(y, valid, temp)),
            log_softmax::<A>(logits::<A>(target, valid, temp)),
        ),
        valid,
        y.len(),
        valid.len(),
    );
}

/// The gradient is zero at every action that is not valid.
pub proof fn law_kl_gradient_spares_invalid_actions<A: Arith>(
    y: Seq<Scalar>,
    target: Seq<Scalar>,
    valid: Seq<usize>,
    temp: Scalar,
    a: int,
)
    requires
        0 <= a < y.len(),
        forall|i: int| 0 <= i < valid.len() ==> #[trigger] valid[i] < y.len() && valid[i] != a,
    ensures
        kl_gradient::<A>(y, target, valid, temp)[a] == lit(ZERO),
{
    let g = divergence_gradient::<A>(
        log_softmax::<A>(logits::<A>(y, valid, temp)),
        log_softmax::<A>(logits::<A>(target, valid, temp)),
    );
    lemma_scattered_spares(g, valid, y.len(), valid.len(), a);
}

proof fn lemma_scattered_len(g: Seq<Scalar>, valid: Seq<usize>, n: nat, k: nat)
    requires
        k <= valid.len(),
        forall|i: int| 0 <= i < valid.len() ==> #[trigger] valid[i] < n,
    ensures
        scattered(g, valid, n, k).len() == n,
    decreases k,
{
    if k > 0 {
        lemma_scattered_len(g, valid, n, (k - 1) as nat);
        assert(valid[k - 1] < n);
    }
}

proof fn lemma_scattered_spares(g: Seq<Scalar>, valid: Seq<usize>, n: nat, k: nat, a: int)
    requires
        0 <= a < n,
        k <= valid.len(),
        forall|i: int| 0 <= i < valid.len() ==> #[trigger] valid[i] < n && valid[i] != a,
    ensures
        scattered(g, valid, n, k)[a] == lit(ZERO),
    decreases k,
{
    if k > 0 {
        lemma_scattered_spares(g, valid, n, (k - 1) as nat, a);
        lemma_scattered_len(g, valid, n, (k - 1) as nat);
        assert(valid[k - 1] != a);
    }
}

/// Two lists of outputs have the same numbers at the valid actions.
pub open spec fn agree_on(y: Seq<Scalar>, target: Seq<Scalar>, valid: Seq<usize>) -> bool {
    forall|i: int|
        #![trigger valid[i]]
        0 <= i < valid.len() ==> y[valid[i] as int].same_number(target[valid[i] as int])
}

/// Every number is zero.
pub open spec fn all_zero(s: Seq<Scalar>) -> bool {
    forall|k: int| 0 <= k < s.len() ==> (#[trigger] s[k]).num_eq(lit(ZERO))
}

/// What holds of the gradient `r` of the divergence of a policy with outputs `y`
/// from one with outputs `target`: one finite entry per action, zero at every
/// action that is not valid, and zero throughout where the policies agree.
pub open spec fn pulls_towards(
    r: Seq<Scalar>,
    y: Seq<Scalar>,
    target: Seq<Scalar>,
    valid: Seq<usize>,
) -> bool {
    &&& r.len() == y.len()
    &&& all_finite(r)
    &&& forall|a: int|
        0 <= a < y.len() && (forall|i: int| 0 <= i < valid.len() ==> #[trigger] valid[i] != a)
            ==> #[trigger] r[a] == lit(ZERO)
    &&& agree_on(y, target, valid) ==> all_zero(r)
    &&& y == target ==> all_zero(r)
}

/// A policy is not pulled away from one that it agrees with: the gradient is zero
/// throughout where the outputs are the same at the valid actions, and so where
/// they are the same altogether. Zeros may differ in sign, and it does not matter
/// whether the outputs or any number in between is finite.
pub proof fn law_kl_gradient_vanishes_at_agreement<A: Arith>(
    y: Seq<Scalar>,
    target: Seq<Scalar>,
    valid: Seq<usize>,
    temp: Scalar,
)
    requires
        forall|i: int| 0 <= i < valid.len() ==> #[trigger] valid[i] < y.len(),
        agree_on(y, target, valid),
    ensures
        all_zero(kl_gradient::<A>(y, target, valid, temp)),
{
    let x = logits::<A>(y, valid, temp);
    let z = logits::<A>(target, valid, temp);
    let live = log_softmax::<A>(x);
    let reference = log_softmax::<A>(z);
    let g = divergence_gradient::<A>(live, reference);
    let n = valid.len();
    let full = scattered(g, valid, y.len(), n);
    lemma_scattered_len(g, valid, y.len(), n);
    assert forall|i: int| 0 <= i < n implies #[trigger] x[i].same_number(z[i]) by {
        assert(valid[i] < y.len());
        A::equals_agree(y[valid[i] as int], temp, target[valid[i] as int], temp);
    }
    lemma_log_softmax_agrees::<A>(x, z);
    if exists|i: int|
        0 <= i < n && (!(#[trigger] live[i]).is_finite() || !A::exp(live[i]).is_finite()) {
        let i = choose|i: int|
            0 <= i < n && (!(#[trigger] live[i]).is_finite() || !A::exp(live[i]).is_finite());
        let j = lemma_scattered_at(g, valid, y.len(), n, i);
        assert(x[j] == x[i]);
        assert(live[j] == live[i]);
        lemma_wild_entry::<A>(live, reference, j);
        assert(valid[i] < y.len());
        assert(!full[valid[i] as int].is_finite());
        assert(!all_finite(full));
    } else {
        lemma_tame_entries::<A>(live, reference);
        assert forall|k: int| 0 <= k < full.len() implies (#[trigger] full[k]).num_eq(
            lit(ZERO),
        ) by {
            lemma_scattered_zero(g, valid, y.len(), n, k);
        }
    }
}

/// Lists of the same numbers have log-softmax lists of the same numbers.
proof fn lemma_log_softmax_agrees<A: Arith>(x: Seq<Scalar>, z: Seq<Scalar>)
    requires
        x.len() == z.len(),
        forall|i: int| 0 <= i < x.len() ==> #[trigger] x[i].same_number(z[i]),
    ensures
        forall|i: int|
            0 <= i < x.len() ==> #[trigger] log_softmax::<A>(x)[i].same_number(
                log_softmax::<A>(z)[i],
            ),
{
    let n = x.len();
    let max_x = max_upto(x, n);
    let max_z = max_upto(z, n);
    lemma_max_agrees(x, z, n);
    let shifted_x = Seq::new(n, |i: int| A::exp(A::minus(x[i], max_x)));
    let shifted_z = Seq::new(n, |i: int| A::exp(A::minus(z[i], max_z)));
    assert forall|i: int| 0 <= i < n implies #[trigger] shifted_x[i].same_number(shifted_z[i]) by {
        assert(x[i].same_number(z[i]));
        A::equals_agree(x[i], max_x, z[i], max_z);
        A::equals_agree(A::minus(x[i], max_x), max_x, A::minus(z[i], max_z), max_z);
    }
    lemma_sum_agrees::<A>(shifted_x, shifted_z, n);
    let sum_x = sum_upto::<A>(shifted_x, n);
    let sum_z = sum_upto::<A>(shifted_z, n);
    A::equals_agree(sum_x, max_x, sum_z, max_z);
    A::equals_agree(A::log(sum_x), max_x, A::log(sum_z), max_z);
    let lse_x = A::plus(A::log(sum_x), max_x);
    let lse_z = A::plus(A::log(sum_z), max_z);
    assert forall|i: int| 0 <= i < n implies #[trigger] log_softmax::<A>(x)[i].same_number(
        log_softmax::<A>(z)[i],
    ) by {
        assert(x[i].same_number(z[i]));
        A::equals_agree(x[i], lse_x, z[i], lse_z);
    }
}

proof fn lemma_max_agrees(x: Seq<Scalar>, z: Seq<Scalar>, k: nat)
    requires
        k <= x.len(),
        x.len() == z.len(),
        forall|i: int| 0 <= i < x.len() ==> #[trigger] x[i].same_number(z[i]),
    ensures
        max_upto(x, k).same_number(max_upto(z, k)),
    decreases k,
{
    if k > 0 {
        lemma_max_agrees(x, z, (k - 1) as nat);
        assert(x[k - 1].same_number(z[k - 1]));
    }
}

proof fn lemma_sum_agrees<A: Arith>(x: Seq<Scalar>, z: Seq<Scalar>, k: nat)
    requires
        k <= x.len(),
        x.len() == z.len(),
        forall|i: int| 0 <= i < x.len() ==> #[trigger] x[i].same_number(z[i]),
    ensures
        sum_upto::<A>(x, k).same_number(sum_upto::<A>(z, k)),
    decreases k,
{
    if k > 0 {
        lemma_sum_agrees::<A>(x, z, (k - 1) as nat);
        assert(x[k - 1].same_number(z[k - 1]));
        A::equals_agree(
            sum_upto::<A>(x, (k - 1) as nat),
            x[k - 1],
            sum_upto::<A>(z, (k - 1) as nat),
            z[k - 1],
        );
    }
}

/// The sum of zeros is zero.
proof fn lemma_sum_of_zeros<A: Arith>(s: Seq<Scalar>, k: nat)
    requires
        k <= s.len(),
        all_zero(s),
    ensures
        sum_upto::<A>(s, k) == lit(ZERO),
    decreases k,
{
    if k > 0 {
        lemma_sum_of_zeros::<A>(s, (k - 1) as nat);
        assert(s[k - 1].num_eq(lit(ZERO)));
        A::zero_is_neutral(lit(ZERO), s[k - 1]);
    }
}

/// Where a logarithm or its exponential is not finite, neither is the entry of
/// the gradient.
proof fn lemma_wild_entry<A: Arith>(live: Seq<Scalar>, target: Seq<Scalar>, i: int)
    requires
        0 <= i < live.len(),
        !live[i].is_finite() || !A::exp(live[i]).is_finite(),
    ensures
        !divergence_gradient::<A>(live, target)[i].is_finite(),
{
    let terms = Seq::new(
        live.len(),
        |i: int| A::times(A::exp(live[i]), A::minus(live[i], target[i])),
    );
    let kl = sum_upto::<A>(terms, live.len());
    let gap = A::minus(live[i], target[i]);
    if !live[i].is_finite() {
        A::infinities_spread(live[i], target[i]);
        A::infinities_spread(gap, kl);
    }
    A::infinities_spread(A::exp(live[i]), A::minus(gap, kl));
    assert(divergence_gradient::<A>(live, target)[i] == A::times(
        A::exp(live[i]),
        A::minus(gap, kl),
    ));
}

/// Where all numbers are finite and the lists agree, every entry of the gradient
/// is zero.
proof fn lemma_tame_entries<A: Arith>(live: Seq<Scalar>, target: Seq<Scalar>)
    requires
        live.len() == target.len(),
        forall|i: int| 0 <= i < live.len() ==> #[trigger] live[i].same_number(target[i]),
        forall|i: int|
            0 <= i < live.len() ==> (#[trigger] live[i]).is_finite() && A::exp(
                live[i],
            ).is_finite(),
    ensures
        all_zero(divergence_gradient::<A>(live, target)),
{
    let g = divergence_gradient::<A>(live, target);
    let terms = Seq::new(
        live.len(),
        |i: int| A::times(A::exp(live[i]), A::minus(live[i], target[i])),
    );
    let kl = sum_upto::<A>(terms, live.len());
    assert forall|i: int| 0 <= i < terms.len() implies (#[trigger] terms[i]).num_eq(
        lit(ZERO),
    ) by {
        assert(live[i].same_number(target[i]));
        A::equals_cancel(live[i], target[i]);
        A::zero_absorbs(A::exp(live[i]), A::minus(live[i], target[i]));
    }
    lemma_sum_of_zeros::<A>(terms, live.len());
    assert forall|i: int| 0 <= i < g.len() implies (#[trigger] g[i]).num_eq(lit(ZERO)) by {
        let gap = A::minus(live[i], target[i]);
        assert(live[i].same_number(target[i]));
        A::equals_cancel(live[i], target[i]);
        A::equals_cancel(gap, kl);
        A::zero_absorbs(A::exp(live[i]), A::minus(gap, kl));
    }
}

/// A place that was written to holds an entry that was put there.
proof fn lemma_scattered_at(g: Seq<Scalar>, valid: Seq<usize>, n: nat, k: nat, i: int) -> (j: int)
    requires
        0 <= i < k <= valid.len(),
        forall|i: int| 0 <= i < valid.len() ==> #[trigger] valid[i] < n,
    ensures
        0 <= j < k,
        valid[j] == valid[i],
        scattered(g, valid, n, k)[valid[i] as int] == g[j],
    decreases k,
{
    lemma_scattered_len(g, valid, n, (k - 1) as nat);
    assert(valid[k - 1] < n);
    assert(valid[i] < n);
    if valid[k - 1] == valid[i] {
        k - 1
    } else {
        lemma_scattered_at(g, valid, n, (k - 1) as nat, i)
    }
}

proof fn lemma_scattered_zero(g: Seq<Scalar>, valid: Seq<usize>, n: nat, k: nat, a: int)
    requires
        0 <= a < n,
        k <= valid.len(),
        g.len() == valid.len(),
        all_zero(g),
        forall|i: int| 0 <= i < valid.len() ==> #[trigger] valid[i] < n,
    ensures
        scattered(g, valid, n, k)[a].num_eq(lit(ZERO)),
    decreases k,
{
    if k > 0 {
        lemma_scattered_zero(g, valid, n, (k - 1) as nat, a);
        lemma_scattered_len(g, valid, n, (k - 1) as nat);
        assert(valid[k - 1] < n);
        assert(g[k - 1].num_eq(lit(ZERO)));
    }
}

proof fn lemma_pulls_towards<A: Arith>(
    y: Seq<Scalar>,
    target: Seq<Scalar>,
    valid: Seq<usize>,
    temp: Scalar,
)
    requires
        forall|i: int| 0 <= i < valid.len() ==> #[trigger] valid[i] < y.len(),
    ensures
        pulls_towards(kl_gradient::<A>(y, target, valid, temp), y, target, valid),
{
    let r = kl_gradient::<A>(y, target, valid, temp);
    law_kl_gradient_is_finite::<A>(y, target, valid, temp);
    assert forall|a: int|
        0 <= a < y.len() && (forall|i: int| 0 <= i < valid.len() ==> #[trigger] valid[i] != a)
        implies #[trigger] r[a] == lit(ZERO) by {
        law_kl_gradient_spares_invalid_actions::<A>(y, target, valid, temp, a);
    }
    if agree_on(y, target, valid) {
        law_kl_gradient_vanishes_at_agreement::<A>(y, target, valid, temp);
    }
    if y == target {
        assert(agree_on(y, target, valid));
    }
}

/// The sum of a list.
fn sum_of<A: Arith>(s: &Vec<Scalar>) -> (r: Scalar)
    ensures
        r == sum_upto::<A>(s@, s@.len()),
{
    let mut sum = lit(ZERO);
    let mut i: usize = 0;
    while i < s.len()
        invariant
            i <= s.len(),
            sum == sum_upto::<A>(s@, i as nat),
        decreases s.len() - i,
    {
        sum = A::r_add(sum, s[i]);
        i = i + 1;
    }
    sum
}

fn logits_of<A: Arith>(y: &[Scalar], valid: &[usize], temp: Scalar) -> (r: Vec<Scalar>)
    requires
        forall|i: int| 0 <= i < valid@.len() ==> #[trigger] valid@[i] < y@.len(),
    ensures
        r@ == logits::<A>(y@, valid@, temp),
{
    let mut out: Vec<Scalar> = Vec::new();
    let mut i: usize = 0;
    while i < valid.len()
        invariant
            i <= valid.len(),
            forall|i: int| 0 <= i < valid@.len() ==> #[trigger] valid@[i] < y@.len(),
            out@ == logits::<A>(y@, valid@, temp).take(i as int),
        decreases valid.len() - i,
    {
        assert(valid@[i as int] < y@.len());
        out.push(A::r_div(y[valid[i]], temp));
        i = i + 1;
        assert(out@ =~= logits::<A>(y@, valid@, temp).take(i as int));
    }
    assert(out@ =~= logits::<A>(y@, valid@, temp));
    out
}

fn log_softmax_of<A: Arith>(x: &Vec<Scalar>) -> (r: Vec<Scalar>)
    ensures
        r@ == log_softmax::<A>(x@),
{
    let mut max = lit(NEG_INFINITY);
    let mut i: usize = 0;
    while i < x.len()
        invariant
            i <= x.len(),
            max == max_upto(x@, i as nat),
        decreases x.len() - i,
    {
        max = max.max(x[i]);
        i = i + 1;
    }
    let ghost shifted_view = Seq::new(x@.len(), |i: int| A::exp(A::minus(x@[i], max)));
    let mut shifted: Vec<Scalar> = Vec::new();
    let mut i: usize = 0;
    while i < x.len()
        invariant
            i <= x.len(),
            shifted_view == Seq::new(x@.len(), |i: int| A::exp(A::minus(x@[i], max))),
            shifted@ == shifted_view.take(i as int),
        decreases x.len() - i,
    {
        shifted.push(A::r_exp(A::r_sub(x[i], max)));
        i = i + 1;
        assert(shifted@ =~= shifted_view.take(i as int));
    }
    assert(shifted@ =~= shifted_view);
    let lse = A::r_add(A::r_ln(sum_of::<A>(&shifted)), max);
    let mut out: Vec<Scalar> = Vec::new();
    let mut i: usize = 0;
    while i < x.len()
        invariant
            i <= x.len(),
            lse == A::plus(
                A::log(sum_upto::<A>(shifted_view, x@.len())),
                max_upto(x@, x@.len()),
            ),
            max == max_upto(x@, x@.len()),
            shifted_view == Seq::new(x@.len(), |i: int| A::exp(A::minus(x@[i], max))),
            out@ == log_softmax::<A>(x@).take(i as int),
        decreases x.len() - i,
    {
        out.push(A::r_sub(x[i], lse));
        i = i + 1;
        assert(out@ =~= log_softmax::<A>(x@).take(i as int));
    }
    assert(out@ =~= log_softmax::<A>(x@));
    out
}

fn divergence_gradient_of<A: Arith>(live: &Vec<Scalar>, target: &Vec<Scalar>) -> (r: Vec<Scalar>)
    requires
        live@.len() == target@.len(),
    ensures
        r@ == divergence_gradient::<A>(live@, target@),
{
    let ghost terms_view = Seq::new(
        live@.len(),
        |i: int| A::times(A::exp(live@[i]), A::minus(live@[i], target@[i])),
    );
    let mut probabilities: Vec<Scalar> = Vec::new();
    let mut gaps: Vec<Scalar> = Vec::new();
    let mut terms: Vec<Scalar> = Vec::new();
    let mut i: usize = 0;
    while i < live.len()
        invariant
            i <= live.len(),
            live@.len() == target@.len(),
            terms_view == Seq::new(
                live@.len(),
                |i: int| A::times(A::exp(live@[i]), A::minus(live@[i], target@[i])),
            ),
            probabilities@.len() == i,
            gaps@.len() == i,
            forall|k: int| 0 <= k < i ==> #[trigger] probabilities@[k] == A::exp(live@[k]),
            forall|k: int| 0 <= k < i ==> #[trigger] gaps@[k] == A::minus(live@[k], target@[k]),
            terms@ == terms_view.take(i as int),
        decreases live.len() - i,
    {
        let p = A::r_exp(live[i]);
        let gap = A::r_sub(live[i], target[i]);
        probabilities.push(p);
        gaps.push(gap);
        terms.push(A::r_mul(p, gap));
        i = i + 1;
        assert(terms@ =~= terms_view.take(i as int));
    }
    assert(terms@ =~= terms_view);
    let kl = sum_of::<A>(&terms);
    let mut out: Vec<Scalar> = Vec::new();
    let mut i: usize = 0;
    while i < live.len()
        invariant
            i <= live.len(),
            live@.len() == target@.len(),
            probabilities@.len() == live@.len(),
            gaps@.len() == live@.len(),
            forall|k: int|
                0 <= k < live@.len() ==> #[trigger] probabilities@[k] == A::exp(live@[k]),
            forall|k: int|
                0 <= k < live@.len() ==> #[trigger] gaps@[k] == A::minus(live@[k], target@[k]),
            terms_view == Seq::new(
                live@.len(),
                |i: int| A::times(A::exp(live@[i]), A::minus(live@[i], target@[i])),
            ),
            kl == sum_upto::<A>(terms_view, live@.len()),
            out@ == divergence_gradient::<A>(live@, target@).take(i as int),
        decreases live.len() - i,
    {
        out.push(A::r_mul(probabilities[i], A::r_sub(gaps[i], kl)));
        i = i + 1;
        assert(out@ =~= divergence_gradient::<A>(live@, target@).take(i as int));
    }
    assert(out@ =~= divergence_gradient::<A>(live@, target@));
    out
}

/// The gradient of the divergence from a reference policy.
pub fn kl_gradient_of<A: Arith>(
    y: &[Scalar],
    target: &[Scalar],
    valid: &[usize],
    temp: Scalar,
) -> (r: Vec<Scalar>)
    requires
        y@.len() == target@.len(),
        forall|i: int| 0 <= i < valid@.len() ==> #[trigger] valid@[i] < y@.len(),
    ensures
        r@ == kl_gradient::<A>(y@, target@, valid@, temp),
        pulls_towards(r@, y@, target@, valid@),
{
    proof {
        lemma_pulls_towards::<A>(y@, target@, valid@, temp);
    }
    let live = log_softmax_of::<A>(&logits_of::<A>(y, valid, temp));
    let reference = log_softmax_of::<A>(&logits_of::<A>(target, valid, temp));
    let g = divergence_gradient_of::<A>(&live, &reference);
    let n: usize = y.len();
    let mut full = zeros(n);
    let mut i: usize = 0;
    while i < valid.len()
        invariant
            i <= valid.len(),
            n == y@.len(),
            g@.len() == valid@.len(),
            forall|i: int| 0 <= i < valid@.len() ==> #[trigger] valid@[i] < y@.len(),
            full@.len() == n,
            full@ == scattered(g@, valid@, n as nat, i as nat),
        decreases valid.len() - i,
    {
        assert(valid@[i as int] < y@.len());
        full.set(valid[i], g[i]);
        i = i + 1;
    }
    let mut i: usize = 0;
    while i < n
        invariant
            i <= n,
            n == y@.len(),
            full@.len() == n,
            full@ == scattered(g@, valid@, n as nat, valid@.len()),
            g@ == divergence_gradient::<A>(
                log_softmax::<A>(logits::<A>(y@, valid@, temp)),
                log_softmax::<A>(logits::<A>(target@, valid@, temp)),
            ),
            forall|k: int| 0 <= k < i ==> (#[trigger] full@[k]).is_finite(),
        decreases n - i,
    {
        if !full[i].is_finite() {
            assert(!all_finite(full@));
            return zeros(n);
        }
        i = i + 1;
    }
    assert(all_finite(full@));
    full
}

} // verus!
