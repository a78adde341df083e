use gradgraph::{Adam, AdamParam, NoPenalty, Param, Penalty, Real, Scalar, Tensor};

/// Single-precision numbers as tensor elements.
#[derive(Clone, Copy, Debug, PartialEq)]
struct Single(f32);

impl Scalar for Single {
    fn zero_value() -> Self {
        Single(0.0)
    }

    fn sum(self, rhs: Self) -> Self {
        Single(self.0 + rhs.0)
    }

    fn product(self, rhs: Self) -> Self {
        Single(self.0 * rhs.0)
    }

    fn zero() -> Self {
        Single(0.0)
    }

    fn plus(self, rhs: Self) -> Self {
        Single(self.0 + rhs.0)
    }

    fn times(self, rhs: Self) -> Self {
        Single(self.0 * rhs.0)
    }
}

impl Real for Single {
    fn one_value() -> Self {
        Single(1.0)
    }

    fn difference(self, rhs: Self) -> Self {
        Single(self.0 - rhs.0)
    }

    fn quotient(self, rhs: Self) -> Self {
        Single(self.0 / rhs.0)
    }

    fn negation(self) -> Self {
        Single(-self.0)
    }

    fn square_root(self) -> Self {
        Single(self.0.sqrt())
    }

    fn one() -> Self {
        Single(1.0)
    }

    fn minus(self, rhs: Self) -> Self {
        Single(self.0 - rhs.0)
    }

    fn divided_by(self, rhs: Self) -> Self {
        Single(self.0 / rhs.0)
    }

    fn negated(self) -> Self {
        Single(-self.0)
    }

    fn sqrt(self) -> Self {
        Single(self.0.sqrt())
    }
}

/// Weight decay: adds twice `lambda` times the element.
struct Decay {
    lambda: f32,
}

impl Penalty<Single> for Decay {
    fn penalty(&self, w: Single) -> Single {
        Single(2.0 * self.lambda * w.0)
    }

    fn penalise(&self, w: Single) -> Single {
        Single(2.0 * self.lambda * w.0)
    }
}

fn singles(shape: &[usize], data: &[f32]) -> Tensor<Single> {
    Tensor::from_vec(shape.to_vec(), data.iter().map(|x| Single(*x)).collect()).unwrap()
}

fn values(t: &Tensor<Single>) -> Vec<f32> {
    t.as_slice().iter().map(|x| x.0).collect()
}

fn close(a: f32, b: f32) -> bool {
    (a - b).abs() <= 1e-6
}

#[test]
fn param_needs_a_gradient_of_the_shape_of_the_value() {
    assert!(Param::new(singles(&[2], &[1.0, 2.0]), singles(&[2], &[0.0, 0.0])).is_some());
    assert!(Param::new(singles(&[2], &[1.0, 2.0]), singles(&[1, 2], &[0.0, 0.0])).is_none());
    assert!(Param::new(singles(&[2], &[1.0, 2.0]), singles(&[3], &[0.0; 3])).is_none());
}

#[test]
fn adam_param_starts_with_zero_moments() {
    let param = Param::new(singles(&[2, 2], &[1.0, 2.0, 3.0, 4.0]), singles(&[2, 2], &[0.5; 4]));
    let p = AdamParam::from(param.unwrap());
    assert_eq!(p.steps(), 0);
    assert_eq!(values(p.data()), vec![1.0, 2.0, 3.0, 4.0]);
    assert_eq!(values(p.grad()), vec![0.5; 4]);
    assert_eq!(p.exp_avg().shape(), &[2, 2]);
    assert_eq!(p.exp_avg_sq().shape(), &[2, 2]);
    assert_eq!(values(p.exp_avg()), vec![0.0; 4]);
    assert_eq!(values(p.exp_avg_sq()), vec![0.0; 4]);
}

#[test]
fn adam_single_step_example() {
    let param = Param::new(singles(&[1], &[1.0]), singles(&[1], &[1.0])).unwrap();
    let betas = (Single(0.9), Single(0.999));
    let mut adam = Adam::new(vec![param], Single(0.1), betas, NoPenalty, Single(1e-8));
    assert_eq!(adam.len(), 1);
    adam.step();
    let p = adam.param(0);
    assert_eq!(p.steps(), 1);
    assert!(close(p.data().get(0).0, 0.9));
    assert!(close(p.exp_avg().get(0).0, 0.1));
    assert!(close(p.exp_avg_sq().get(0).0, 0.001));
    assert_eq!(p.grad().get(0), Single(1.0));
    let moment = p.exp_avg().get(0);
    let square = p.exp_avg_sq().get(0);
    let value = p.data().get(0);

    adam.zero_grad();
    let p = adam.param(0);
    assert_eq!(p.grad().get(0), Single(0.0));
    assert_eq!(p.exp_avg().get(0), moment);
    assert_eq!(p.exp_avg_sq().get(0), square);
    assert_eq!(p.data().get(0), value);
    assert_eq!(p.steps(), 1);
}

#[test]
fn adam_second_step_uses_the_running_state() {
    let param = Param::new(singles(&[1], &[1.0]), singles(&[1], &[1.0])).unwrap();
    let mut p = AdamParam::from(param);
    let (lr, b1, b2, eps) = (0.1f32, 0.9f32, 0.999f32, 1e-8f32);
    p.step(Single(lr), Single(b1), Single(b2), Single(eps), &NoPenalty);
    let x1 = p.data().get(0).0;
    p.grad_mut().fill(Single(-2.0));
    p.step(Single(lr), Single(b1), Single(b2), Single(eps), &NoPenalty);
    assert_eq!(p.steps(), 2);
    let g = -2.0f32 + 0.0;
    let m1 = 0.0 * b1 + (1.0 + 0.0) * (1.0 - b1);
    let v1 = 0.0 * b2 + (1.0f32 + 0.0) * (1.0 + 0.0) * (1.0 - b2);
    let m2 = m1 * b1 + g * (1.0 - b1);
    let v2 = v1 * b2 + g * g * (1.0 - b2);
    let c1 = 1.0 - 1.0 * b1 * b1;
    let c2 = 1.0 - 1.0 * b2 * b2;
    let x2 = x1 + m2 / ((v2.sqrt() / c2.sqrt()) + eps) * (-lr / c1);
    assert_eq!(p.exp_avg().get(0), Single(m2));
    assert_eq!(p.exp_avg_sq().get(0), Single(v2));
    assert_eq!(p.data().get(0), Single(x2));
}

#[test]
fn adam_adds_the_penalty_to_the_gradient() {
    let param = Param::new(singles(&[2], &[1.0, -1.0]), singles(&[2], &[0.5, 2.0])).unwrap();
    let mut p = AdamParam::from(param);
    let (lr, b1, b2, eps) = (0.01f32, 0.9f32, 0.999f32, 1e-8f32);
    let decay = Decay { lambda: 0.25 };
    p.step(Single(lr), Single(b1), Single(b2), Single(eps), &decay);
    let c1 = 1.0 - 1.0 * b1;
    let c2 = 1.0 - 1.0 * b2;
    let mut expected = Vec::new();
    for (x, g) in [(1.0f32, 0.5f32), (-1.0, 2.0)] {
        let g = g + 2.0 * 0.25 * g;
        let m = 0.0 * b1 + g * (1.0 - b1);
        let v = 0.0 * b2 + g * g * (1.0 - b2);
        assert!(close(m, 0.1 * g));
        expected.push(x + m / ((v.sqrt() / c2.sqrt()) + eps) * (-lr / c1));
    }
    assert_eq!(values(p.data()), expected);
    assert!(close(p.data().get(0).0, 1.0 - 0.01));
    assert!(close(p.data().get(1).0, -1.0 - 0.01));
}

#[test]
fn adam_steps_every_parameter_on_its_own() {
    let first = Param::new(singles(&[2], &[1.0, 2.0]), singles(&[2], &[1.0, -1.0])).unwrap();
    let second = Param::new(singles(&[1, 1], &[5.0]), singles(&[1, 1], &[0.0])).unwrap();
    let betas = (Single(0.9), Single(0.999));
    let mut adam = Adam::new(vec![first, second], Single(0.1), betas, NoPenalty, Single(1e-8));
    assert_eq!(adam.len(), 2);
    assert_eq!(values(adam.param(0).data()), vec![1.0, 2.0]);
    assert_eq!(values(adam.param(1).data()), vec![5.0]);
    adam.step();
    assert!(close(adam.param(0).data().get(0).0, 0.9));
    assert!(close(adam.param(0).data().get(1).0, 2.1));
    // a zero gradient leaves the value where it is
    assert_eq!(values(adam.param(1).data()), vec![5.0]);
    assert_eq!(adam.param(0).steps(), 1);
    assert_eq!(adam.param(1).steps(), 1);
    adam.grad_mut(1).fill(Single(3.0));
    adam.step();
    assert!(adam.param(1).data().get(0).0 < 5.0);
    assert_eq!(adam.param(1).steps(), 2);
    adam.zero_grad();
    assert_eq!(values(adam.param(0).grad()), vec![0.0, 0.0]);
    assert_eq!(values(adam.param(1).grad()), vec![0.0]);
    assert_eq!(adam.param(0).steps(), 2);
}

#[test]
fn adam_without_parameters() {
    let betas = (Single(0.9), Single(0.999));
    let mut adam = Adam::new(Vec::new(), Single(0.1), betas, NoPenalty, Single(1e-8));
    assert_eq!(adam.len(), 0);
    adam.step();
    adam.zero_grad();
    assert_eq!(adam.len(), 0);
}

#[test]
fn no_penalty_adds_zero() {
    assert_eq!(NoPenalty.penalise(Single(3.5)), Single(0.0));
    assert_eq!(NoPenalty.penalise(-4i64), 0);
}
