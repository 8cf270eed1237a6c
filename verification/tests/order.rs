use priority_executor::message::Message;
use std::cmp::Ordering;

fn samples() -> Vec<Message<usize>> {
    vec![
        Message::Run(0),
        Message::Run(1),
        Message::Run(5),
        Message::Run(10),
        Message::Run(usize::MAX),
        Message::Close,
    ]
}

#[test]
fn run_messages_compare_by_priority() {
    assert_eq!(Message::Run(5).cmp(&Message::Run(10)), Ordering::Less);
    assert_eq!(Message::Run(10).cmp(&Message::Run(5)), Ordering::Greater);
    assert_eq!(Message::Run(7).cmp(&Message::Run(7)), Ordering::Equal);
    assert_eq!(Message::Run(0).cmp(&Message::Run(usize::MAX)), Ordering::Less);
}

#[test]
fn close_ranks_above_every_run() {
    assert_eq!(Message::Close.cmp(&Message::Run(0)), Ordering::Greater);
    assert_eq!(Message::Close.cmp(&Message::Run(usize::MAX)), Ordering::Greater);
    assert_eq!(Message::Run(0).cmp(&Message::Close), Ordering::Less);
    assert_eq!(Message::Run(usize::MAX).cmp(&Message::Close), Ordering::Less);
}

#[test]
fn close_equals_close() {
    assert_eq!(Message::<usize>::Close.cmp(&Message::Close), Ordering::Equal);
    assert!(Message::<usize>::Close == Message::Close);
}

#[test]
fn order_is_reflexive() {
    for a in samples() {
        assert_eq!(a.cmp(&a), Ordering::Equal);
    }
}

#[test]
fn order_is_antisymmetric() {
    let all = samples();
    for (i, a) in all.iter().enumerate() {
        for (j, b) in all.iter().enumerate() {
            assert_eq!(a.cmp(b), b.cmp(a).reverse());
            assert_eq!(a.cmp(b) == Ordering::Equal, i == j);
        }
    }
}

#[test]
fn order_is_transitive() {
    let all = samples();
    for a in &all {
        for b in &all {
            for c in &all {
                if a.cmp(b) != Ordering::Greater && b.cmp(c) != Ordering::Greater {
                    assert_ne!(a.cmp(c), Ordering::Greater);
                }
                if a.cmp(b) == Ordering::Less && b.cmp(c) == Ordering::Less {
                    assert_eq!(a.cmp(c), Ordering::Less);
                }
            }
        }
    }
}

#[test]
fn samples_are_listed_in_rising_order() {
    let all = samples();
    for i in 0..all.len() {
        for j in 0..all.len() {
            assert_eq!(all[i].cmp(&all[j]), i.cmp(&j));
        }
    }
}

#[test]
fn equality_follows_the_order() {
    assert!(Message::Run(3) == Message::Run(3));
    assert!(Message::Run(3) != Message::Run(4));
    assert!(Message::Run(3) != Message::Close);
    assert!(Message::Close != Message::Run(3));
}

#[test]
fn partial_order_is_total() {
    assert_eq!(
        Message::Run(1).partial_cmp(&Message::Run(2)),
        Some(Ordering::Less)
    );
    assert_eq!(
        Message::Close.partial_cmp(&Message::Run(2)),
        Some(Ordering::Greater)
    );
    assert_eq!(
        Message::<usize>::Close.partial_cmp(&Message::Close),
        Some(Ordering::Equal)
    );
    assert!(Message::Run(1) < Message::Run(2));
    assert!(Message::Run(2) <= Message::Run(2));
    assert!(Message::Close > Message::Run(usize::MAX));
    assert!(Message::Close >= Message::Close);
}

#[test]
fn sorting_by_the_order_puts_close_last() {
    let mut queue = vec![
        Message::Run(4),
        Message::Close,
        Message::Run(9),
        Message::Run(0),
        Message::Close,
        Message::Run(4),
    ];
    queue.sort_by(|a, b| a.cmp(b));
    let expected = vec![
        Message::Run(0),
        Message::Run(4),
        Message::Run(4),
        Message::Run(9),
        Message::Close,
        Message::Close,
    ];
    assert_eq!(queue.len(), expected.len());
    assert!(queue.iter().zip(expected.iter()).all(|(got, want)| got == want));
}

#[test]
fn labels_name_the_variant() {
    assert_eq!(Message::Run(12usize).label(), "Run");
    assert_eq!(Message::Run("payload").label(), "Run");
    assert_eq!(Message::<usize>::Close.label(), "Close");
}

#[test]
fn debug_shows_the_variant() {
    assert_eq!(format!("{:?}", Message::<usize>::Close), "Close");
    assert_eq!(format!("{:?}", Message::Run(3usize)), "Run(3)");
}
