use raytracing_weekend::utils::progress::Progress;

#[test]
fn test_increment() {
    let mut p = Progress::from(10);
    p.increment();
    assert_eq!(p.current(), 1);
}

#[test]
fn test_progress_starts_at_zero() {
    let p = Progress::from(10);
    assert_eq!(p.current(), 0);
    assert_eq!(p.total(), 10);
}

#[test]
fn test_progress_counts_every_step() {
    let mut p = Progress::from(3);
    p.increment();
    p.increment();
    assert_eq!(p.current(), 2);
    assert_eq!(p.total(), 3);
    p.increment();
    p.increment();
    assert_eq!(p.current(), 4);
    assert_eq!(p.total(), 3);
}

#[test]
fn test_progress_in_percent() {
    let mut p = Progress::from(10);
    p.increment();
    p.increment();
    assert_eq!(p.current() as f64 / p.total() as f64 * 100.0, 20.0);
}

#[test]
fn test_curr_pixel_counts_from_one_row_by_row() {
    let first = raytracing_weekend::utils::Progress {
        curr_width: 0,
        curr_height: 0,
        total_height: 50,
        total_width: 100,
    };
    assert_eq!(first.curr_pixel(), 1);
    let second_row = raytracing_weekend::utils::Progress {
        curr_width: 0,
        curr_height: 1,
        total_height: 50,
        total_width: 100,
    };
    assert_eq!(second_row.curr_pixel(), 101);
    let last = raytracing_weekend::utils::Progress {
        curr_width: 99,
        curr_height: 49,
        total_height: 50,
        total_width: 100,
    };
    assert_eq!(last.curr_pixel(), 5000);
}
