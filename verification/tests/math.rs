use polysynth::math::{gcd, Fraction};

#[test]
fn reduce() {
    let frac = Fraction::new(4, 2);
    assert_eq!(frac.numerator(), 2);
    assert_eq!(frac.denominator(), 1);

    let frac = Fraction::new(6, 9);
    assert_eq!(frac.numerator(), 2);
    assert_eq!(frac.denominator(), 3);

    let frac = Fraction::new(192000, 44100);
    assert_eq!(frac.numerator(), 640);
    assert_eq!(frac.denominator(), 147);
}

#[test]
fn gcd_of_sample_rates() {
    assert_eq!(gcd(192000, 44100), 300);
    assert_eq!(gcd(44100, 192000), 300);
    assert_eq!(gcd(48000, 44100), 300);
    assert_eq!(gcd(17, 5), 1);
}

#[test]
fn gcd_with_zero() {
    assert_eq!(gcd(0, 0), 0);
    assert_eq!(gcd(12, 0), 12);
    assert_eq!(gcd(0, 12), 12);
}

#[test]
fn gcd_divides_both_and_is_greatest() {
    for a in 0usize..40 {
        for b in 0usize..40 {
            let g = gcd(a, b);
            if g == 0 {
                assert_eq!((a, b), (0, 0));
                continue;
            }
            assert_eq!(a % g, 0);
            assert_eq!(b % g, 0);
            for d in 1usize..=40 {
                if a % d == 0 && b % d == 0 {
                    assert_eq!(g % d, 0);
                }
            }
        }
    }
}

#[test]
fn fraction_keeps_a_zero_denominator() {
    let frac = Fraction::new(5, 0);
    assert_eq!(frac.numerator(), 1);
    assert_eq!(frac.denominator(), 0);
}

#[test]
fn fraction_of_zero_is_zero_over_one() {
    let frac = Fraction::new(0, 7);
    assert_eq!(frac.numerator(), 0);
    assert_eq!(frac.denominator(), 1);
}

#[test]
fn fraction_in_lowest_terms_is_unchanged() {
    let frac = Fraction::new(640, 147);
    assert_eq!(frac.numerator(), 640);
    assert_eq!(frac.denominator(), 147);
}

#[test]
fn fraction_keeps_the_ratio() {
    for n in 0usize..30 {
        for d in 1usize..30 {
            let frac = Fraction::new(n, d);
            assert_eq!(frac.numerator() * d, frac.denominator() * n);
            assert_eq!(gcd(frac.numerator(), frac.denominator()), 1);
        }
    }
}
