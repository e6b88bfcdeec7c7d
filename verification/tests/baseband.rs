use p25::baseband::{C4fmImpulses, C4fmDeviationDibits, Dibit};

fn sample(level: i32) -> f32 {
    level as f32 / 100.0
}

#[test]
fn test_impulses() {
    let dibits = vec![
        Dibit::new(0b00),
        Dibit::new(0b01),
        Dibit::new(0b10),
        Dibit::new(0b11),
    ];
    let mut imp = C4fmImpulses::new(dibits, 10);

    assert!(sample(imp.next().unwrap()) == 0.06);
    assert!(sample(imp.next().unwrap()) == 0.0);
    assert!(sample(imp.next().unwrap()) == 0.0);
    assert!(sample(imp.next().unwrap()) == 0.0);
    assert!(sample(imp.next().unwrap()) == 0.0);
    assert!(sample(imp.next().unwrap()) == 0.0);
    assert!(sample(imp.next().unwrap()) == 0.0);
    assert!(sample(imp.next().unwrap()) == 0.0);
    assert!(sample(imp.next().unwrap()) == 0.0);
    assert!(sample(imp.next().unwrap()) == 0.0);
    assert!(sample(imp.next().unwrap()) == 0.18);
    assert!(sample(imp.next().unwrap()) == 0.0);
    assert!(sample(imp.next().unwrap()) == 0.0);
    assert!(sample(imp.next().unwrap()) == 0.0);
    assert!(sample(imp.next().unwrap()) == 0.0);
    assert!(sample(imp.next().unwrap()) == 0.0);
    assert!(sample(imp.next().unwrap()) == 0.0);
    assert!(sample(imp.next().unwrap()) == 0.0);
    assert!(sample(imp.next().unwrap()) == 0.0);
    assert!(sample(imp.next().unwrap()) == 0.0);
    assert!(sample(imp.next().unwrap()) == -0.06);
    assert!(sample(imp.next().unwrap()) == 0.0);
    assert!(sample(imp.next().unwrap()) == 0.0);
    assert!(sample(imp.next().unwrap()) == 0.0);
    assert!(sample(imp.next().unwrap()) == 0.0);
    assert!(sample(imp.next().unwrap()) == 0.0);
    assert!(sample(imp.next().unwrap()) == 0.0);
    assert!(sample(imp.next().unwrap()) == 0.0);
    assert!(sample(imp.next().unwrap()) == 0.0);
    assert!(sample(imp.next().unwrap()) == 0.0);
    assert!(sample(imp.next().unwrap()) == -0.18);
    assert!(sample(imp.next().unwrap()) == 0.0);
    assert!(sample(imp.next().unwrap()) == 0.0);
    assert!(sample(imp.next().unwrap()) == 0.0);
    assert!(sample(imp.next().unwrap()) == 0.0);
    assert!(sample(imp.next().unwrap()) == 0.0);
    assert!(sample(imp.next().unwrap()) == 0.0);
    assert!(sample(imp.next().unwrap()) == 0.0);
    assert!(sample(imp.next().unwrap()) == 0.0);
    assert!(sample(imp.next().unwrap()) == 0.0);
    assert!(imp.next().is_none());
}

#[test]
fn test_deviation() {
    let mut d = C4fmDeviationDibits::new();

    assert!(d.next().unwrap().bits() == 0b01);
    assert!(d.next().unwrap().bits() == 0b01);
    assert!(d.next().unwrap().bits() == 0b11);
    assert!(d.next().unwrap().bits() == 0b11);
    assert!(d.next().unwrap().bits() == 0b01);
    assert!(d.next().unwrap().bits() == 0b01);
    assert!(d.next().unwrap().bits() == 0b11);
    assert!(d.next().unwrap().bits() == 0b11);
}

#[test]
fn test_impulse_period_five() {
    let dibits = vec![Dibit::new(0b01), Dibit::new(0b11)];
    let mut imp = C4fmImpulses::new(dibits, 5);

    assert_eq!(imp.next().unwrap(), 18);
    for _ in 0..4 {
        assert_eq!(imp.next().unwrap(), 0);
    }
    assert_eq!(imp.next().unwrap(), -18);
    for _ in 0..4 {
        assert_eq!(imp.next().unwrap(), 0);
    }
    assert!(imp.next().is_none());
}

#[test]
fn test_deviation_period() {
    let mut d = C4fmDeviationDibits::new();
    let mut first: Vec<u8> = Vec::new();
    for _ in 0..4 {
        first.push(d.next().unwrap().bits());
    }
    assert_eq!(first, vec![0b01, 0b01, 0b11, 0b11]);
    for _ in 0..3 {
        for k in 0..4 {
            assert_eq!(d.next().unwrap().bits(), first[k]);
        }
    }
}
