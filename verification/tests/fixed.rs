use bullet_kan::basis::bump::bump;
use bullet_kan::basis::spline::cox_de_boor;
use bullet_kan::fixed::Fixed;
use bullet_kan::nn::grid::make_grid;
use bullet_kan::nn::kan_lut::silu;
use bullet_kan::scalar::Scalar;

const ONE: i64 = 1 << 32;

fn ratio(n: i64, d: i64) -> Fixed {
    Fixed { raw: n * ONE / d }
}

fn float(x: Fixed) -> f64 {
    x.raw as f64 / ONE as f64
}

#[test]
fn exact_arithmetic() {
    assert_eq!(Fixed::from_count(3), ratio(3, 1));
    assert_eq!(ratio(1, 2).add(ratio(1, 4)), ratio(3, 4));
    assert_eq!(ratio(1, 2).sub(ratio(3, 4)), ratio(-1, 4));
    assert_eq!(ratio(3, 2).mul(ratio(-1, 2)), ratio(-3, 4));
    assert_eq!(ratio(-3, 4).div(ratio(1, 2)), ratio(-3, 2));
    assert_eq!(ratio(5, 2).neg(), ratio(-5, 2));
    assert_eq!(ratio(9, 4).sqrt(), ratio(3, 2));
    assert_eq!(ratio(1, 2).max(ratio(1, 3)), ratio(1, 2));
    assert_eq!(ratio(7, 1).clamp(ratio(-1, 1), ratio(2, 1)), ratio(2, 1));
    assert_eq!(ratio(-7, 1).clamp(ratio(-1, 1), ratio(2, 1)), ratio(-1, 1));
    assert!(ratio(1, 3).is_less(ratio(1, 2)));
    assert!(ratio(1, 2).is_at_most(ratio(1, 2)));
    assert!(ratio(1, 2).is_same(ratio(2, 4)));
}

#[test]
fn out_of_range_and_undefined() {
    let most = Fixed { raw: i64::MAX };
    let least = Fixed { raw: i64::MIN };
    assert_eq!(most.add(ratio(1, 1)), most);
    assert_eq!(least.sub(ratio(1, 1)), least);
    assert_eq!(least.neg(), most);
    assert_eq!(most.mul(ratio(-2, 1)), least);
    assert_eq!(Fixed::from_count(usize::MAX), most);
    assert_eq!(ratio(1, 1).div(ratio(0, 1)), ratio(0, 1));
    assert_eq!(ratio(-1, 1).sqrt(), ratio(0, 1));
}

#[test]
fn rounding_is_towards_zero() {
    let third = ratio(1, 1).div(ratio(3, 1));
    assert_eq!(third.raw, ONE / 3);
    assert_eq!(third.neg(), ratio(-1, 1).div(ratio(3, 1)));
    assert_eq!(Fixed { raw: -1 }.mul(ratio(1, 2)), ratio(0, 1));
}

#[test]
fn exponential_is_close_near_zero() {
    assert_eq!(ratio(0, 1).exp(), ratio(1, 1));
    assert!((float(ratio(1, 1).exp()) - 1f64.exp()).abs() < 0.01);
    assert!((float(ratio(-1, 1).exp()) - (-1f64).exp()).abs() < 0.01);
}

#[test]
fn basis_functions_in_fixed_point() {
    assert_eq!(bump(ratio(1, 4), ratio(0, 1), ratio(1, 1)), ratio(9, 16));
    assert_eq!(bump(ratio(1, 2), ratio(0, 1), ratio(1, 1)), ratio(1, 1));
    let grid = make_grid(2, 1, (ratio(0, 1), ratio(1, 1)));
    assert_eq!(
        cox_de_boor(ratio(1, 4), &grid, 4, 1),
        vec![ratio(1, 2), ratio(1, 2), ratio(0, 1)]
    );
    assert_eq!(silu(ratio(0, 1)), ratio(0, 1));
}
