use borgtui::ring::RingBuffer;

#[test]
fn test_pushes() {
    let mut r = RingBuffer::<char, 3>::new();
    for c in 'A'..='C' {
        r.push_back(c);
    }
    assert_eq!(r.iter(), &vec!['A', 'B', 'C']);
    assert_eq!(r.back(), Some(&'C'));
    r.push_back('D');
    assert_eq!(r.back(), Some(&'D'));
    r.push_back('E');
    assert_eq!(r.back(), Some(&'E'));
    assert_eq!(r.iter(), &vec!['C', 'D', 'E']);
    r.push_back('F');
    assert_eq!(r.iter(), &vec!['D', 'E', 'F']);
    r.push_back('G');
    assert_eq!(r.iter(), &vec!['E', 'F', 'G']);
}

#[test]
fn test_empty_iter() {
    let empty: RingBuffer<u32, 256> = RingBuffer::new();
    let test: Vec<u32> = Vec::new();
    assert_eq!(empty.iter(), &test);
}

#[test]
fn test_larger() {
    let source: Vec<u32> = (0..=1024).collect();
    let big: RingBuffer<u32, 256> = RingBuffer::from_vec(&source);
    assert_eq!(big.iter(), &(769..=1024).collect::<Vec<_>>());
}

#[test]
fn test_back_and_empty() {
    let mut r = RingBuffer::<u32, 2>::new();
    assert!(r.is_empty());
    assert_eq!(r.back(), None);
    r.push_back(7);
    assert!(!r.is_empty());
    assert_eq!(r.back(), Some(&7));
}
