use process_manager::history::{Data, HISTORY_LENGTH};

fn held(data: &Data<u64>) -> Vec<u64> {
    data.data_iter().copied().collect()
}

#[test]
fn window_keeps_the_newest_five_of_seven() {
    let mut data: Data<u64> = Data::new(5);
    for value in 1..=7u64 {
        data.push(value);
    }
    assert_eq!(held(&data), vec![3, 4, 5, 6, 7]);
}

#[test]
fn new_window_is_empty() {
    let data: Data<u64> = Data::new(5);
    assert_eq!(held(&data), Vec::<u64>::new());
    assert_eq!(data.len(), 0);
}

#[test]
fn window_below_capacity_keeps_everything_in_order() {
    let mut data: Data<u64> = Data::new(5);
    data.push(9);
    data.push(8);
    data.push(7);
    assert_eq!(held(&data), vec![9, 8, 7]);
    assert_eq!(data.len(), 3);
}

#[test]
fn window_at_capacity_is_full_but_complete() {
    let mut data: Data<u64> = Data::new(3);
    data.push(1);
    data.push(2);
    data.push(3);
    assert_eq!(held(&data), vec![1, 2, 3]);
    data.push(4);
    assert_eq!(held(&data), vec![2, 3, 4]);
    assert_eq!(data.len(), 3);
}

#[test]
fn window_of_capacity_one_keeps_the_last() {
    let mut data: Data<u64> = Data::new(1);
    data.push(1);
    data.push(2);
    assert_eq!(held(&data), vec![2]);
}

#[test]
fn window_of_capacity_zero_keeps_nothing() {
    let mut data: Data<u64> = Data::new(0);
    data.push(1);
    data.push(2);
    assert_eq!(held(&data), Vec::<u64>::new());
}

#[test]
fn window_never_grows_beyond_its_capacity() {
    let mut data: Data<u64> = Data::new(HISTORY_LENGTH);
    for value in 0..100u64 {
        data.push(value);
        assert!(data.len() <= HISTORY_LENGTH);
    }
    let expected: Vec<u64> = (80..100).collect();
    assert_eq!(held(&data), expected);
}

#[test]
fn iteration_can_be_started_again() {
    let mut data: Data<u64> = Data::new(2);
    data.push(1);
    data.push(2);
    assert_eq!(held(&data), vec![1, 2]);
    assert_eq!(held(&data), vec![1, 2]);
    data.push(3);
    assert_eq!(held(&data), vec![2, 3]);
}

#[test]
fn history_length_is_twenty() {
    assert_eq!(HISTORY_LENGTH, 20);
}
