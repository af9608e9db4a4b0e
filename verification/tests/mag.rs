use fx::mag::{binary_names, mag, si_names};

#[test]
fn unit_names_rise_from_the_smallest() {
    assert_eq!(binary_names(), ["b", "Kb", "Mb", "Gb", "Tb", "Pb", "Eb", "Zb", "Yb"]);
    assert_eq!(si_names(), ["", "K", "M", "G", "T", "P", "E", "Z", "Y"]);
}

#[test]
fn mag_chooses_the_scale() {
    let jobs = mag(false, &["1241", "1_241_700"]);
    assert_eq!(jobs.len(), 2);
    assert_eq!(jobs[0].numeral, "1241");
    assert_eq!(jobs[0].divisor, 1000);
    assert_eq!(jobs[0].names, si_names());
    assert_eq!(jobs[1].numeral, "1241700");
    let jobs = mag(true, &["1_241"]);
    assert_eq!(jobs[0].numeral, "1241");
    assert_eq!(jobs[0].divisor, 1024);
    assert_eq!(jobs[0].names, binary_names());
}

#[test]
fn mag_cleans_the_numeral() {
    let jobs = mag(false, &["  123_412.00000007", "12.25", " _1_ ", "", "x y"]);
    assert_eq!(jobs[0].numeral, "123412.00000007");
    assert_eq!(jobs[1].numeral, "12.25");
    assert_eq!(jobs[2].numeral, "1");
    assert_eq!(jobs[3].numeral, "");
    assert_eq!(jobs[4].numeral, "x y");
    let none: [&str; 0] = [];
    assert!(mag(true, &none).is_empty());
}
