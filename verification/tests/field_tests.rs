use mandelgrid::{classify, sample_field, Cell, FieldError};

/// The escape-time kernel over the fixed square window of the complex plane:
/// real part from -2.5 to 1.5, imaginary part from -2.0 to 2.0, both axes cut
/// into `n` uniform samples. The orbit starts at the sample point itself and
/// runs exactly `maxit` rounds; it escapes when its final magnitude squared
/// reaches 4.0 or a component is no longer a number.
fn escape_kernel(i: usize, j: usize, n: usize, maxit: usize) -> bool {
    let step: f64 = 4.0 / (n - 1) as f64;
    let c_re: f64 = -2.5 + (j as f64) * step;
    let c_im: f64 = -2.0 + (i as f64) * step;
    let mut z_re: f64 = c_re;
    let mut z_im: f64 = c_im;
    let mut z_re_sq: f64 = z_re * z_re;
    let mut z_im_sq: f64 = z_im * z_im;
    let mut round: usize = 0;
    while round < maxit {
        z_im = 2.0 * z_re * z_im + c_im;
        z_re = z_re_sq - z_im_sq + c_re;
        z_re_sq = z_re * z_re;
        z_im_sq = z_im * z_im;
        round += 1;
    }
    let mag_sq: f64 = z_re * z_re + z_im * z_im;
    !(mag_sq < 4.0 && !(z_re.is_nan() || z_im.is_nan()))
}

fn sample(n: usize, maxit: usize) -> Vec<Vec<Cell>> {
    sample_field(n, move |i, j| escape_kernel(i, j, n, maxit)).unwrap()
}

fn sentinel(c: Cell) -> f64 {
    match c {
        Cell::Bounded => 10.0,
        Cell::Escaped => 0.0,
    }
}

fn to_values(field: &Vec<Vec<Cell>>) -> Vec<Vec<f64>> {
    field.iter().map(|row| row.iter().map(|c| sentinel(*c)).collect()).collect()
}

#[test]
fn it_works() {
    let x = to_values(&sample(400, 20));
    assert!(x.len() == 400);
    assert!(x[0].len() == 400);
    assert!(x[0][0] == 0.0);
}

#[test]
fn field_is_square_and_binary() {
    let n: usize = 33;
    let field = sample(n, 7);
    assert_eq!(field.len(), n);
    for row in &field {
        assert_eq!(row.len(), n);
        for cell in row {
            assert!(*cell == Cell::Bounded || *cell == Cell::Escaped);
        }
    }
    for row in &to_values(&field) {
        for value in row {
            assert!(*value == 0.0 || *value == 10.0);
        }
    }
}

#[test]
fn repeated_runs_are_bit_identical() {
    let first = sample(50, 10);
    let second = sample(50, 10);
    assert_eq!(first, second);
    let first_values = to_values(&first);
    let second_values = to_values(&second);
    for i in 0..50usize {
        for j in 0..50usize {
            assert!(first_values[i][j].to_bits() == second_values[i][j].to_bits());
        }
    }
}

#[test]
fn coordinate_endpoints_exact() {
    // For sides where the step divides the 4.0-wide interval exactly, the
    // first sample sits on the interval minimum and the last on the maximum.
    for n in [2usize, 5usize] {
        let step: f64 = 4.0 / (n - 1) as f64;
        let x_first: f64 = -2.5 + (0 as f64) * step;
        let x_last: f64 = -2.5 + ((n - 1) as f64) * step;
        let y_first: f64 = -2.0 + (0 as f64) * step;
        let y_last: f64 = -2.0 + ((n - 1) as f64) * step;
        assert!(x_first == -2.5 && x_last == 1.5);
        assert!(y_first == -2.0 && y_last == 2.0);
    }
}

#[test]
fn corner_cells_escape_without_iterating() {
    // n = 2 puts the four cells exactly on the window corners; with zero
    // rounds the classification tests the corner coordinates themselves:
    // magnitude squared is 10.25 or 6.25, never below 4.0.
    let field = sample(2, 0);
    for i in 0..2usize {
        for j in 0..2usize {
            assert_eq!(field[i][j], Cell::Escaped);
        }
    }
    assert!(to_values(&field)[0][0] == 0.0);
}

#[test]
fn cells_follow_their_coordinates() {
    // n = 5 samples the axes at -2.5, -1.5, -0.5, 0.5, 1.5 (real) and
    // -2.0, -1.0, 0.0, 1.0, 2.0 (imaginary). With zero rounds the cell at
    // row 2, column 2 sits at (-0.5, 0.0), magnitude squared 0.25: bounded.
    // The cell at row 0, column 2 sits at (-0.5, -2.0), magnitude squared
    // 4.25: escaped. Row 2, column 0 sits at (-2.5, 0.0), 6.25: escaped.
    let field = sample(5, 0);
    assert_eq!(field[2][2], Cell::Bounded);
    assert_eq!(field[0][2], Cell::Escaped);
    assert_eq!(field[2][0], Cell::Escaped);
    assert!(to_values(&field)[2][2] == 10.0);
}

#[test]
fn interior_point_stays_bounded() {
    // At (-0.5, 0.0) the orbit x -> x * x - 0.5 keeps to the real axis and
    // settles near its fixed point, so the cell stays bounded after 20 rounds.
    let field = sample(5, 20);
    assert_eq!(field[2][2], Cell::Bounded);
}

#[test]
fn single_cell_grid_escapes() {
    // n = 1 makes the step 4.0 / 0.0 and the sample coordinate 0.0 times
    // infinity: not a number. The guard classifies the one cell as escaped.
    let field = sample(1, 3);
    assert_eq!(field.len(), 1);
    assert_eq!(field[0].len(), 1);
    assert_eq!(field[0][0], Cell::Escaped);
    assert!(to_values(&field)[0][0] == 0.0);
}

#[test]
fn zero_dimension_is_rejected() {
    let result = sample_field(0, |_i, _j| false);
    assert_eq!(result, Err(FieldError::ZeroDimension));
}

#[test]
fn classify_maps_the_two_sentinels() {
    assert_eq!(classify(false), Cell::Bounded);
    assert_eq!(classify(true), Cell::Escaped);
    assert!(sentinel(classify(false)) == 10.0);
    assert!(sentinel(classify(true)) == 0.0);
}
