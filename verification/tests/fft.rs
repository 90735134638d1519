use symphonia::fft::{bit_reverse_copy, bit_reverse_inplace, Fft, Ifft};

#[test]
fn small_transforms_keep_no_table() {
    let f = Fft::new(1024);
    assert_eq!(f.size(), 1024);
    assert!(f.perm().is_none());
    let f = Ifft::new(4096);
    assert_eq!(f.size(), 4096);
    assert!(f.perm().is_none());
}

#[test]
fn large_transforms_keep_a_bit_reversal_table() {
    let f = Fft::new(8192);
    assert_eq!(f.size(), 8192);
    let perm = f.perm().unwrap();
    assert_eq!(perm.len(), 8192);
    assert_eq!(perm[1], 4096);
    for i in 0..8192usize {
        assert_eq!(perm[perm[i] as usize] as usize, i);
    }
    let g = Ifft::new(16384);
    assert_eq!(g.perm().unwrap()[1], 8192);
}

#[test]
fn bit_reverse_inplace_and_copy_agree() {
    let f = Fft::new(8192);
    let perm = f.perm().unwrap();
    let x: Vec<u32> = (0..8192u32).collect();
    let mut y = x.clone();
    bit_reverse_inplace(perm, &mut y);
    let mut z = vec![0u32; 8192];
    bit_reverse_copy(perm, &x, &mut z);
    assert_eq!(y, z);
    for i in 0..8192usize {
        assert_eq!(y[i] as u16, perm[i]);
    }
    bit_reverse_inplace(perm, &mut y);
    assert_eq!(y, x);
}

#[test]
fn size_two_and_largest_sizes() {
    let f = Fft::new(1);
    assert_eq!(f.size(), 1);
    assert!(f.perm().is_none());
    let f = Ifft::new(32768);
    let perm = f.perm().unwrap();
    assert_eq!(perm.len(), 32768);
    assert_eq!(perm[1], 16384);
    assert_eq!(perm[3], 16384 + 8192);
}

#[test]
fn largest_documented_size() {
    let f = Fft::new(65536);
    assert_eq!(f.size(), 65536);
    let perm = f.perm().unwrap();
    assert_eq!(perm.len(), 65536);
    assert_eq!(perm[1], 32768);
    assert_eq!(perm[65535], 65535);
    for i in 0..65536usize {
        assert_eq!(perm[perm[i] as usize] as usize, i);
    }
    let g = Ifft::new(65536);
    assert_eq!(g.size(), 65536);
    assert_eq!(g.perm().unwrap()[2], 16384);
}
