//! The Adam optimizer.
//!
//! Each parameter is updated from its own gradient and its own running
//! state alone, so the parameters of one optimizer may be stepped in any
//! order, or side by side.

use crate::scalar::Scalar;
use crate::tensor::{Tensor, TensorView};
use vstd::prelude::*;

verus! {

/// A number type that also has a one, differences, quotients, negation and
/// square roots. As in [`Scalar`], each operation is a pure function of its
/// operands and nothing else is assumed of it.
pub trait Real: Scalar {
    /// The multiplicative identity.
    spec fn one_value() -> Self;

    /// `self` less `rhs`.
    spec fn difference(self, rhs: Self) -> Self;

    /// `self` divided by `rhs`.
    spec fn quotient(self, rhs: Self) -> Self;

    /// The additive inverse of `self`.
    spec fn negation(self) -> Self;

    /// The square root of `self`.
    spec fn square_root(self) -> Self;

    /// Returns the multiplicative identity.
    fn one() -> (r: Self)
        ensures
            r == Self::one_value(),
    ;

    /// Returns `self - rhs`.
    fn minus(self, rhs: Self) -> (r: Self)
        ensures
            r == self.difference(rhs),
    ;

    /// Returns `self / rhs`.
    fn divided_by(self, rhs: Self) -> (r: Self)
        ensures
            r == self.quotient(rhs),
    ;

    /// Returns `-self`.
    fn negated(self) -> (r: Self)
        ensures
            r == self.negation(),
    ;

    /// Returns the square root of `self`.
    fn sqrt(self) -> (r: Self)
        ensures
            r == self.square_root(),
    ;
}

/// A regularizer: what it yields for an element of the gradient is added
/// to that element before the moments are updated.
pub trait Penalty<T> {
    /// The term that is added to the gradient element `w`.
    spec fn penalty(&self, w: T) -> T;

    /// Returns the term that is added to the gradient element `w`.
    fn penalise(&self, w: T) -> (r: T)
        ensures
            r == self.penalty(w),
    ;
}

/// The regularizer that adds nothing.
#[derive(Clone, Copy, Debug, Default)]
pub struct NoPenalty;

impl<T: Scalar> Penalty<T> for NoPenalty {
    open spec fn penalty(&self, w: T) -> T {
        T::zero_value()
    }

    fn penalise(&self, w: T) -> (r: T) {
        T::zero()
    }
}

/// `base` to the power `n`: one, multiplied `n` times by `base`.
pub open spec fn power<T: Real>(base: T, n: nat) -> T
    decreases n,
{
    if n == 0 {
        T::one_value()
    } else {
        power(base, (n - 1) as nat).product(base)
    }
}

/// The gradient element `g` with its penalty added.
pub open spec fn penalised<T: Scalar, P: Penalty<T>>(penalty: P, g: T) -> T {
    g.sum(penalty.penalty(g))
}

/// The running average `m` of the gradient, moved towards the penalised
/// gradient element `g` with the decay `beta1`.
pub open spec fn first_moment<T: Real>(m: T, g: T, beta1: T) -> T {
    m.product(beta1).sum(g.product(T::one_value().difference(beta1)))
}

/// The running average `v` of the squared gradient, moved towards the
/// square of the penalised gradient element `g` with the decay `beta2`.
pub open spec fn second_moment<T: Real>(v: T, g: T, beta2: T) -> T {
    v.product(beta2).sum(g.product(g).product(T::one_value().difference(beta2)))
}

/// The value `x` after a step with the moments `m` and `v`, the learning
/// rate `lr`, the stabilizer `eps` and the corrections `c1` and `c2` of the
/// two moments' bias.
pub open spec fn updated_value<T: Real>(x: T, m: T, v: T, lr: T, eps: T, c1: T, c2: T) -> T {
    x.sum(
        m.quotient(v.square_root().quotient(c2.square_root()).sum(eps)).product(
            lr.negation().quotient(c1),
        ),
    )
}

/// A parameter: a value and its gradient, of the same shape.
#[derive(Debug)]
pub struct Param<T> {
    data: Tensor<T>,
    grad: Tensor<T>,
}

impl<T: Scalar> Param<T> {
    /// The value of the parameter.
    pub closed spec fn value(&self) -> TensorView<T> {
        self.data@
    }

    /// The gradient of the parameter.
    pub closed spec fn gradient(&self) -> TensorView<T> {
        self.grad@
    }

    /// The value and the gradient are tensors of one shape.
    pub open spec fn wf(&self) -> bool {
        self.value().wf() && self.gradient().wf() && self.value().shape == self.gradient().shape
    }

    /// Makes a parameter of the value `data` and the gradient `grad`.
    /// Returns `None` where their shapes differ.
    pub fn new(data: Tensor<T>, grad: Tensor<T>) -> (r: Option<Self>)
        requires
            data.wf(),
            grad.wf(),
        ensures
            match r {
                Some(p) => p.wf() && p.value() == data@ && p.gradient() == grad@,
                None => data@.shape != grad@.shape,
            },
    {
        let same = shapes_equal(data.shape(), grad.shape());
        if same {
            Some(Param { data, grad })
        } else {
            None
        }
    }
}

/// Tells whether two shapes are the same.
fn shapes_equal(a: &[usize], b: &[usize]) -> (r: bool)
    ensures
        r == (a@ == b@),
{
    if a.len() != b.len() {
        return false;
    }
    let mut k: usize = 0;
    while k < a.len()
        invariant
            k <= a.len(),
            a.len() == b.len(),
            forall|j: int| 0 <= j < k ==> a@[j] == b@[j],
        decreases a.len() - k,
    {
        if a[k] != b[k] {
            return false;
        }
        k += 1;
    }
    proof {
        assert(a@ =~= b@);
    }
    true
}

/// A parameter together with the state that Adam keeps for it: the number
/// of steps taken and the running averages of the gradient and of its
/// square.
#[derive(Debug)]
pub struct AdamParam<T> {
    data: Tensor<T>,
    grad: Tensor<T>,
    step: usize,
    exp_avg: Tensor<T>,
    exp_avg_sq: Tensor<T>,
    beta1_power: T,
    beta2_power: T,
}

/// What a parameter of Adam is.
pub ghost struct AdamParamView<T> {
    pub data: TensorView<T>,
    pub grad: TensorView<T>,
    pub step: nat,
    pub exp_avg: TensorView<T>,
    pub exp_avg_sq: TensorView<T>,
}

impl<T> View for AdamParam<T> {
    type V = AdamParamView<T>;

    closed spec fn view(&self) -> AdamParamView<T> {
        AdamParamView {
            data: self.data@,
            grad: self.grad@,
            step: self.step as nat,
            exp_avg: self.exp_avg@,
            exp_avg_sq: self.exp_avg_sq@,
        }
    }
}

impl<T: Real> AdamParamView<T> {
    /// The value, the gradient and the two moments are tensors of one
    /// shape.
    pub open spec fn wf(self) -> bool {
        &&& self.data.wf()
        &&& self.grad.wf()
        &&& self.exp_avg.wf()
        &&& self.exp_avg_sq.wf()
        &&& self.grad.shape == self.data.shape
        &&& self.exp_avg.shape == self.data.shape
        &&& self.exp_avg_sq.shape == self.data.shape
    }

    /// The state of a parameter that no step has been taken on: zero
    /// moments of the shape of the gradient.
    pub open spec fn initial(data: TensorView<T>, grad: TensorView<T>) -> AdamParamView<T> {
        AdamParamView {
            data,
            grad,
            step: 0,
            exp_avg: TensorView::zeros(grad.shape),
            exp_avg_sq: TensorView::zeros(grad.shape),
        }
    }

    /// The state after one step of Adam with the learning rate `lr`, the
    /// decays `beta1` and `beta2`, the stabilizer `eps` and the regularizer
    /// `penalty`. The gradient stays as it is.
    pub open spec fn stepped<P: Penalty<T>>(
        self,
        lr: T,
        beta1: T,
        beta2: T,
        eps: T,
        penalty: P,
    ) -> AdamParamView<T> {
        let t = self.step + 1;
        let c1 = T::one_value().difference(power(beta1, t));
        let c2 = T::one_value().difference(power(beta2, t));
        let n = self.data.data.len();
        let m = Seq::new(
            n,
            |i: int| first_moment(self.exp_avg.data[i], penalised(penalty, self.grad.data[i]), beta1),
        );
        let v = Seq::new(
            n,
            |i: int|
                second_moment(
                    self.exp_avg_sq.data[i],
                    penalised(penalty, self.grad.data[i]),
                    beta2,
                ),
        );
        AdamParamView {
            data: TensorView {
                shape: self.data.shape,
                data: Seq::new(
                    n,
                    |i: int| updated_value(self.data.data[i], m[i], v[i], lr, eps, c1, c2),
                ),
            },
            grad: self.grad,
            step: t,
            exp_avg: TensorView { shape: self.exp_avg.shape, data: m },
            exp_avg_sq: TensorView { shape: self.exp_avg_sq.shape, data: v },
        }
    }

    /// The state after the gradient has been set to zero.
    pub open spec fn zero_grad(self) -> AdamParamView<T> {
        AdamParamView { grad: TensorView::zeros(self.grad.shape), ..self }
    }
}

impl<T: Real> AdamParam<T> {
    /// The powers of the two decays that the parameter keeps.
    pub closed spec fn powers(&self) -> (T, T) {
        (self.beta1_power, self.beta2_power)
    }

    /// The parameter is well formed and keeps the powers of `beta1` and
    /// `beta2` that belong to the number of its steps.
    pub open spec fn wf(&self, beta1: T, beta2: T) -> bool {
        self@.wf() && self.powers() == (power(beta1, self@.step), power(beta2, self@.step))
    }

    /// Takes the value and the gradient of `param` and gives them zero
    /// moments of the gradient's shape and a step count of zero.
    pub fn from(param: Param<T>) -> (r: Self)
        requires
            param.wf(),
        ensures
            r@ == AdamParamView::initial(param.value(), param.gradient()),
            forall|beta1: T, beta2: T| r.wf(beta1, beta2),
    {
        let exp_avg = Tensor::zeros(param.grad.shape());
        let exp_avg_sq = Tensor::zeros(param.grad.shape());
        AdamParam {
            data: param.data,
            grad: param.grad,
            step: 0,
            exp_avg,
            exp_avg_sq,
            beta1_power: T::one(),
            beta2_power: T::one(),
        }
    }

    /// The value of the parameter.
    pub fn data(&self) -> (r: &Tensor<T>)
        ensures
            r@ == self@.data,
    {
        &self.data
    }

    /// The gradient of the parameter.
    pub fn grad(&self) -> (r: &Tensor<T>)
        ensures
            r@ == self@.grad,
    {
        &self.grad
    }

    /// Access to the gradient of the parameter, for the backward pass to
    /// write to.
    pub fn grad_mut(&mut self) -> (r: &mut Tensor<T>)
        ensures
            r@ == old(self)@.grad,
            final(self)@ == (AdamParamView { grad: final(r)@, ..old(self)@ }),
            final(self).powers() == old(self).powers(),
    {
        &mut self.grad
    }

    /// The number of steps taken.
    pub fn steps(&self) -> (r: usize)
        ensures
            r == self@.step,
    {
        self.step
    }

    /// The running average of the gradient.
    pub fn exp_avg(&self) -> (r: &Tensor<T>)
        ensures
            r@ == self@.exp_avg,
    {
        &self.exp_avg
    }

    /// The running average of the squared gradient.
    pub fn exp_avg_sq(&self) -> (r: &Tensor<T>)
        ensures
            r@ == self@.exp_avg_sq,
    {
        &self.exp_avg_sq
    }

    /// Takes one step of Adam on this parameter.
    pub fn step<P: Penalty<T>>(&mut self, lr: T, beta1: T, beta2: T, eps: T, penalty: &P)
        requires
            old(self).wf(beta1, beta2),
            old(self)@.step < usize::MAX,
        ensures
            final(self).wf(beta1, beta2),
            final(self)@ == old(self)@.stepped(lr, beta1, beta2, eps, *penalty),
    {
        self.step = self.step + 1;
        self.beta1_power = self.beta1_power.times(beta1);
        self.beta2_power = self.beta2_power.times(beta2);
        let c1 = T::one().minus(self.beta1_power);
        let c2 = T::one().minus(self.beta2_power);
        let rate = lr.negated().divided_by(c1);
        let root = c2.sqrt();
        let keep1 = T::one().minus(beta1);
        let keep2 = T::one().minus(beta2);
        let n = self.data.len();
        let ghost before = old(self)@;
        let ghost after = before.stepped(lr, beta1, beta2, eps, *penalty);
        let mut i: usize = 0;
        while i < n
            invariant
                i <= n,
                before.wf(),
                n == before.data.data.len(),
                after == before.stepped(lr, beta1, beta2, eps, *penalty),
                c1 == T::one_value().difference(power(beta1, before.step + 1)),
                c2 == T::one_value().difference(power(beta2, before.step + 1)),
                rate == lr.negation().quotient(c1),
                root == c2.square_root(),
                keep1 == T::one_value().difference(beta1),
                keep2 == T::one_value().difference(beta2),
                self.grad@ == before.grad,
                self.step == before.step + 1,
                self.powers() == (power(beta1, before.step + 1), power(beta2, before.step + 1)),
                self.data@.shape == before.data.shape,
                self.exp_avg@.shape == before.exp_avg.shape,
                self.exp_avg_sq@.shape == before.exp_avg_sq.shape,
                self.data@.data.len() == n,
                self.exp_avg@.data.len() == n,
                self.exp_avg_sq@.data.len() == n,
                forall|j: int|
                    0 <= j < i ==> self.data@.data[j] == after.data.data[j] && self.exp_avg@.data[j]
                        == after.exp_avg.data[j] && self.exp_avg_sq@.data[j]
                        == after.exp_avg_sq.data[j],
                forall|j: int|
                    i <= j < n ==> self.data@.data[j] == before.data.data[j]
                        && self.exp_avg@.data[j] == before.exp_avg.data[j]
                        && self.exp_avg_sq@.data[j] == before.exp_avg_sq.data[j],
            decreases n - i,
        {
            let g = self.grad.get(i);
            let g = g.plus(penalty.penalise(g));
            let m = self.exp_avg.get(i).times(beta1).plus(g.times(keep1));
            let v = self.exp_avg_sq.get(i).times(beta2).plus(g.times(g).times(keep2));
            let x = self.data.get(i).plus(
                m.divided_by(v.sqrt().divided_by(root).plus(eps)).times(rate),
            );
            self.exp_avg.set(i, m);
            self.exp_avg_sq.set(i, v);
            self.data.set(i, x);
            i += 1;
        }
        proof {
            assert(self.data@.data =~= after.data.data);
            assert(self.exp_avg@.data =~= after.exp_avg.data);
            assert(self.exp_avg_sq@.data =~= after.exp_avg_sq.data);
        }
    }

    /// Sets the gradient to zero. The moments and the step count stay.
    pub fn zero_grad(&mut self)
        requires
            old(self)@.wf(),
        ensures
            final(self)@ == old(self)@.zero_grad(),
            final(self).powers() == old(self).powers(),
    {
        self.grad.fill(T::zero());
        proof {
            assert(self.grad@.data =~= TensorView::<T>::zeros(old(self)@.grad.shape).data);
        }
    }
}

/// The Adam optimizer over a list of parameters.
#[derive(Debug)]
pub struct Adam<T, P> {
    params: Vec<AdamParam<T>>,
    lr: T,
    penalty: P,
    betas: (T, T),
    eps: T,
}

impl<T: Real, P: Penalty<T>> Adam<T, P> {
    /// The parameters.
    pub closed spec fn params(&self) -> Seq<AdamParam<T>> {
        self.params@
    }

    /// The learning rate.
    pub closed spec fn lr(&self) -> T {
        self.lr
    }

    /// The decays of the first and of the second moment.
    pub closed spec fn betas(&self) -> (T, T) {
        self.betas
    }

    /// The stabilizer of the denominator.
    pub closed spec fn eps(&self) -> T {
        self.eps
    }

    /// The regularizer.
    pub closed spec fn penalty(&self) -> P {
        self.penalty
    }

    /// Every parameter is well formed for the decays of this optimizer.
    pub open spec fn wf(&self) -> bool {
        forall|i: int|
            0 <= i < self.params().len() ==> (#[trigger] self.params()[i]).wf(
                self.betas().0,
                self.betas().1,
            )
    }

    /// Makes an optimizer for `params` with the learning rate `lr`, the
    /// decays `betas`, the regularizer `penalty` and the stabilizer `eps`.
    /// No step has been taken on any parameter, and all moments are zero.
    pub fn new(params: Vec<Param<T>>, lr: T, betas: (T, T), penalty: P, eps: T) -> (r: Self)
        requires
            forall|i: int| 0 <= i < params.len() ==> (#[trigger] params[i]).wf(),
        ensures
            r.wf(),
            r.lr() == lr,
            r.betas() == betas,
            r.eps() == eps,
            r.penalty() == penalty,
            r.params().len() == params.len(),
            forall|i: int|
                0 <= i < params.len() ==> (#[trigger] r.params()[i])@ == AdamParamView::initial(
                    params[i].value(),
                    params[i].gradient(),
                ),
    {
        let mut rest = params;
        let ghost all = rest@;
        let mut reversed: Vec<AdamParam<T>> = Vec::with_capacity(rest.len());
        while rest.len() > 0
            invariant
                rest.len() + reversed.len() == all.len(),
                rest@ == all.take(rest.len() as int),
                forall|i: int| 0 <= i < all.len() ==> (#[trigger] all[i]).wf(),
                forall|j: int|
                    0 <= j < reversed.len() ==> (#[trigger] reversed[j])@
                        == AdamParamView::initial(
                        all[all.len() - 1 - j].value(),
                        all[all.len() - 1 - j].gradient(),
                    ) && reversed[j].wf(betas.0, betas.1),
            decreases rest.len(),
        {
            let ghost k = rest.len() - 1;
            let param = rest.pop().unwrap();
            proof {
                assert(param == all[k]);
                assert(rest@ =~= all.take(k));
            }
            reversed.push(AdamParam::from(param));
        }
        let mut params: Vec<AdamParam<T>> = Vec::with_capacity(reversed.len());
        let ghost turned = reversed@;
        while reversed.len() > 0
            invariant
                turned.len() == all.len(),
                reversed.len() + params.len() == all.len(),
                reversed@ == turned.take(reversed.len() as int),
                forall|j: int| 0 <= j < params.len() ==> #[trigger] params[j] == turned[all.len() - 1 - j],
            decreases reversed.len(),
        {
            let ghost k = reversed.len() - 1;
            let param = reversed.pop().unwrap();
            proof {
                assert(param == turned[k]);
                assert(reversed@ =~= turned.take(k));
            }
            params.push(param);
        }
        Adam { params, lr, penalty, betas, eps }
    }

    /// The number of parameters.
    pub fn len(&self) -> (r: usize)
        ensures
            r == self.params().len(),
    {
        self.params.len()
    }

    /// The parameter at position `i`.
    pub fn param(&self, i: usize) -> (r: &AdamParam<T>)
        requires
            i < self.params().len(),
        ensures
            *r == self.params()[i as int],
    {
        &self.params[i]
    }

    /// Access to the gradient of the parameter at position `i`, for the
    /// backward pass to write to.
    pub fn grad_mut(&mut self, i: usize) -> (r: &mut Tensor<T>)
        requires
            i < old(self).params().len(),
        ensures
            r@ == old(self).params()[i as int]@.grad,
            final(self).params().len() == old(self).params().len(),
            final(self).params()[i as int]@ == (AdamParamView {
                grad: final(r)@,
                ..old(self).params()[i as int]@
            }),
            final(self).params()[i as int].powers() == old(self).params()[i as int].powers(),
            forall|j: int|
                0 <= j < old(self).params().len() && j != i ==> final(self).params()[j] == old(
                    self,
                ).params()[j],
            final(self).lr() == old(self).lr(),
            final(self).betas() == old(self).betas(),
            final(self).eps() == old(self).eps(),
            final(self).penalty() == old(self).penalty(),
    {
        self.params[i].grad_mut()
    }

    /// Takes one step of Adam on every parameter.
    pub fn step(&mut self)
        requires
            old(self).wf(),
            forall|i: int|
                0 <= i < old(self).params().len() ==> (#[trigger] old(self).params()[i])@.step
                    < usize::MAX,
        ensures
            final(self).wf(),
            final(self).params().len() == old(self).params().len(),
            forall|i: int|
                0 <= i < old(self).params().len() ==> (#[trigger] final(self).params()[i])@ == old(
                    self,
                ).params()[i]@.stepped(
                    old(self).lr(),
                    old(self).betas().0,
                    old(self).betas().1,
                    old(self).eps(),
                    old(self).penalty(),
                ),
            final(self).lr() == old(self).lr(),
            final(self).betas() == old(self).betas(),
            final(self).eps() == old(self).eps(),
            final(self).penalty() == old(self).penalty(),
    {
        let n = self.params.len();
        let mut i: usize = 0;
        while i < n
            invariant
                i <= n,
                n == self.params.len(),
                n == old(self).params.len(),
                self.lr == old(self).lr,
                self.betas == old(self).betas,
                self.eps == old(self).eps,
                self.penalty == old(self).penalty,
                forall|j: int|
                    0 <= j < i ==> (#[trigger] self.params[j]).wf(self.betas.0, self.betas.1)
                        && self.params[j]@ == old(self).params[j]@.stepped(
                        self.lr,
                        self.betas.0,
                        self.betas.1,
                        self.eps,
                        self.penalty,
                    ),
                forall|j: int| i <= j < n ==> #[trigger] self.params[j] == old(self).params[j],
                forall|j: int|
                    0 <= j < n ==> (#[trigger] old(self).params[j]).wf(
                        self.betas.0,
                        self.betas.1,
                    ) && old(self).params[j]@.step < usize::MAX,
            decreases n - i,
        {
            assert(self.params[i as int] == old(self).params[i as int]);
            self.params[i].step(self.lr, self.betas.0, self.betas.1, self.eps, &self.penalty);
            i += 1;
        }
    }

    /// Sets the gradient of every parameter to zero. The moments and the
    /// step counts stay.
    pub fn zero_grad(&mut self)
        requires
            old(self).wf(),
        ensures
            final(self).wf(),
            final(self).params().len() == old(self).params().len(),
            forall|i: int|
                0 <= i < old(self).params().len() ==> (#[trigger] final(self).params()[i])@ == old(
                    self,
                ).params()[i]@.zero_grad(),
            final(self).lr() == old(self).lr(),
            final(self).betas() == old(self).betas(),
            final(self).eps() == old(self).eps(),
            final(self).penalty() == old(self).penalty(),
    {
        let n = self.params.len();
        let mut i: usize = 0;
        while i < n
            invariant
                i <= n,
                n == self.params.len(),
                n == old(self).params.len(),
                self.lr == old(self).lr,
                self.betas == old(self).betas,
                self.eps == old(self).eps,
                self.penalty == old(self).penalty,
                forall|j: int|
                    0 <= j < i ==> (#[trigger] self.params[j]).wf(self.betas.0, self.betas.1)
                        && self.params[j]@ == old(self).params[j]@.zero_grad(),
                forall|j: int| i <= j < n ==> #[trigger] self.params[j] == old(self).params[j],
                forall|j: int|
                    0 <= j < n ==> (#[trigger] old(self).params[j]).wf(
                        self.betas.0,
                        self.betas.1,
                    ),
            decreases n - i,
        {
            assert(self.params[i as int] == old(self).params[i as int]);
            self.params[i].zero_grad();
            i += 1;
        }
    }
}

} // verus!
