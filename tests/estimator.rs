use rustique::spectrum::dominant_bin;

fn bits(v: &[f32]) -> Vec<u32> {
    v.iter().map(|x| x.to_bits()).collect()
}

#[test]
fn strongest_bin_is_found() {
    assert_eq!(dominant_bin(&bits(&[0.1, 3.0, 2.0])), Some(1));
    assert_eq!(dominant_bin(&bits(&[0.0, 0.5, 7.25])), Some(2));
}

#[test]
fn ties_go_to_the_lowest_bin() {
    assert_eq!(dominant_bin(&bits(&[1.0, 5.0, 5.0, 2.0])), Some(1));
    assert_eq!(dominant_bin(&bits(&[0.0, -0.0])), Some(0));
    assert_eq!(dominant_bin(&bits(&[-0.0, 0.0])), Some(0));
}

#[test]
fn nan_is_never_dominant() {
    assert_eq!(dominant_bin(&bits(&[f32::NAN, 1.0, f32::NAN])), Some(1));
    assert_eq!(dominant_bin(&bits(&[1.0, f32::NAN, 2.0])), Some(2));
    assert_eq!(dominant_bin(&bits(&[f32::NAN, f32::NAN])), None);
    assert_eq!(dominant_bin(&bits(&[-f32::NAN])), None);
}

#[test]
fn empty_spectrum_has_no_dominant_bin() {
    assert_eq!(dominant_bin(&Vec::new()), None);
}

#[test]
fn negative_and_infinite_values_are_ordered() {
    assert_eq!(dominant_bin(&bits(&[-3.0, -1.0, -2.0])), Some(1));
    assert_eq!(dominant_bin(&bits(&[1.0e30, f32::INFINITY, 2.0])), Some(1));
    assert_eq!(dominant_bin(&bits(&[f32::NEG_INFINITY, -1.0e30])), Some(1));
}
