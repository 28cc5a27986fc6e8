use creche::utils::{Argument, HeadBodyTail, HeadBodyTailIter};

fn tags(items: Vec<u32>) -> Vec<String> {
    let mut it = HeadBodyTailIter::new(items);
    let mut out = Vec::new();
    loop {
        match it.next() {
            None => break,
            Some(HeadBodyTail::Only(x)) => out.push(format!("only {}", x)),
            Some(HeadBodyTail::Head(x)) => out.push(format!("head {}", x)),
            Some(HeadBodyTail::Body(x)) => out.push(format!("body {}", x)),
            Some(HeadBodyTail::Tail(x)) => out.push(format!("tail {}", x)),
        }
    }
    out
}

#[test]
fn head_body_tail_of_empty_sequence() {
    assert!(tags(vec![]).is_empty());
}

#[test]
fn head_body_tail_of_one_item() {
    assert_eq!(tags(vec![7]), vec!["only 7"]);
}

#[test]
fn head_body_tail_of_two_items() {
    assert_eq!(tags(vec![1, 2]), vec!["head 1", "tail 2"]);
}

#[test]
fn head_body_tail_of_four_items() {
    assert_eq!(tags(vec![1, 2, 3, 4]), vec!["head 1", "body 2", "body 3", "tail 4"]);
}

#[test]
fn head_body_tail_keeps_returning_none() {
    let mut it = HeadBodyTailIter::new(vec![5u8]);
    assert!(matches!(it.next(), Some(HeadBodyTail::Only(5))));
    assert!(it.next().is_none());
    assert!(it.next().is_none());
}

#[test]
fn argument_round_trip() {
    let a = Argument::new(b"--flag=1".to_vec()).ok().unwrap();
    assert_eq!(a.as_bytes(), &b"--flag=1".to_vec());
    assert_eq!(a.into_value(), b"--flag=1".to_vec());
}

#[test]
fn argument_empty_is_accepted() {
    let a = Argument::new(Vec::new()).ok().unwrap();
    assert!(a.into_value().is_empty());
}

#[test]
fn argument_with_zero_byte_is_refused() {
    let e = Argument::new(b"ab\0c\0".to_vec()).err().unwrap();
    assert_eq!(e.nul_position(), 2);
    assert_eq!(e.into_vec(), b"ab\0c\0".to_vec());
}

#[test]
fn argument_duplicate_is_equal() {
    let a = Argument::new(b"x y".to_vec()).ok().unwrap();
    let b = a.duplicate();
    assert_eq!(a.as_bytes(), b.as_bytes());
}
