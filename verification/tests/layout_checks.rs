use keyopt::errors::OptError;
use keyopt::layout::Layout;
use keyopt::mutation::mutate_layout;
use rand::SeedableRng;

fn assert_bijection(keys: &Vec<u8>) {
    assert_eq!(keys.len(), 26);
    let mut seen = [false; 26];
    for &p in keys.iter() {
        assert!((p as usize) < 26);
        assert!(!seen[p as usize], "position {} mapped twice", p);
        seen[p as usize] = true;
    }
}

#[test]
fn random_layout_is_bijection() {
    let mut rng = rand::rngs::StdRng::seed_from_u64(7);
    for _ in 0..20 {
        let l = Layout::random(&mut rng);
        assert_bijection(&l.keys);
    }
}

#[test]
fn mutated_layout_is_bijection() {
    let mut rng = rand::rngs::StdRng::seed_from_u64(11);
    let mut l = Layout::random(&mut rng);
    for _ in 0..50 {
        l = mutate_layout(&l, &mut rng);
        assert_bijection(&l.keys);
    }
}

#[test]
fn random_layouts_actually_shuffle() {
    // A genuine shuffle of 26 positions does not come back as the
    // untouched identity twenty independent times.
    let mut any_moved = false;
    for seed in 0..20 {
        let mut rng = rand::rngs::StdRng::seed_from_u64(seed);
        let l = Layout::random(&mut rng);
        if (0..26).any(|i| l.keys[i] != i as u8) {
            any_moved = true;
        }
    }
    assert!(any_moved);
}

#[test]
fn fixed_mapping_identity() {
    let letters: Vec<u8> = (b'a'..=b'z').collect();
    let l = Layout::from_fixed_mapping(&letters).unwrap();
    assert_bijection(&l.keys);
    for i in 0..26 {
        assert_eq!(l.keys[i], i as u8);
    }
}

#[test]
fn fixed_mapping_rejects_duplicate() {
    let mut letters: Vec<u8> = (b'a'..=b'z').collect();
    letters[3] = b'a';
    match Layout::from_fixed_mapping(&letters) {
        Err(e) => assert_eq!(e, OptError::ConfigurationError),
        Ok(_) => panic!("accepted a duplicate letter"),
    }
}

#[test]
fn fixed_mapping_rejects_bad_length() {
    let letters: Vec<u8> = (b'a'..=b'y').collect();
    assert!(Layout::from_fixed_mapping(&letters).is_err());
}

#[test]
fn fixed_mapping_rejects_out_of_alphabet() {
    let mut letters: Vec<u8> = (b'a'..=b'z').collect();
    letters[0] = b'A';
    assert!(Layout::from_fixed_mapping(&letters).is_err());
}

#[test]
fn inverse_undoes_keys() {
    let mut rng = rand::rngs::StdRng::seed_from_u64(13);
    let l = Layout::random(&mut rng);
    let inv = l.inverse();
    assert_eq!(inv.len(), 26);
    for letter in 0..26 {
        assert_eq!(inv[l.keys[letter] as usize], letter as u8);
    }
}
