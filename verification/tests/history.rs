use technicals::bar::Bar;
use technicals::bar::Source;
use technicals::history::HistoryBuffer;

fn bar(i: i64) -> Bar {
    Bar::new(0, 100 + i, 50 + i, 75 + i, 1000 + i, i)
}

#[test]
fn empty_buffer() {
    let buffer = HistoryBuffer::new(3);
    assert_eq!(buffer.len(), 0);
    assert_eq!(buffer.capacity(), 3);
    assert_eq!(buffer.window(Source::Close, 0), Vec::<i64>::new());
    assert_eq!(buffer.window(Source::Close, 1), Vec::<i64>::new());
}

#[test]
fn push_appends_until_full_then_evicts_the_oldest() {
    let mut buffer = HistoryBuffer::new(3);
    for i in 0..3 {
        buffer.push(bar(i));
        assert_eq!(buffer.len(), (i + 1) as usize);
    }
    assert_eq!(buffer.window(Source::Close, 3), vec![75, 76, 77]);
    buffer.push(bar(3));
    assert_eq!(buffer.len(), 3);
    assert_eq!(buffer.window(Source::Close, 3), vec![76, 77, 78]);
    assert_eq!(buffer.close_at(0), 76);
    assert_eq!(buffer.high_at(0), 101);
    assert_eq!(buffer.low_at(0), 51);
    assert_eq!(buffer.volume_at(0), 1001);
    assert_eq!(buffer.at(Source::Close, 2), 78);
    assert_eq!(buffer.at(Source::High, 2), 103);
    assert_eq!(buffer.at(Source::Low, 2), 53);
    assert_eq!(buffer.at(Source::Volume, 2), 1003);
}

#[test]
fn length_is_the_smaller_of_capacity_and_pushes() {
    let mut buffer = HistoryBuffer::new(5);
    for i in 0..12 {
        buffer.push(bar(i));
        let expected = if i + 1 < 5 { (i + 1) as usize } else { 5 };
        assert_eq!(buffer.len(), expected);
        let want: Vec<i64> = ((i + 1 - expected as i64)..=i).map(|j| 75 + j).collect();
        assert_eq!(buffer.window(Source::Close, expected), want);
    }
}

#[test]
fn window_is_the_tail_or_empty() {
    let mut buffer = HistoryBuffer::new(4);
    for i in 0..4 {
        buffer.push(bar(i));
    }
    assert_eq!(buffer.window(Source::Close, 2), vec![77, 78]);
    assert_eq!(buffer.window(Source::High, 2), vec![102, 103]);
    assert_eq!(buffer.window(Source::Low, 1), vec![53]);
    assert_eq!(buffer.window(Source::Volume, 3), vec![1001, 1002, 1003]);
    assert_eq!(buffer.window(Source::Close, 4), vec![75, 76, 77, 78]);
    assert_eq!(buffer.window(Source::Close, 5), Vec::<i64>::new());
    assert_eq!(buffer.window(Source::Close, 0), Vec::<i64>::new());
}

#[test]
fn sum_of_the_last_values() {
    let mut buffer = HistoryBuffer::new(4);
    for i in 0..6 {
        buffer.push(bar(i));
    }
    assert_eq!(buffer.sum_last(Source::Close, 0), 0);
    assert_eq!(buffer.sum_last(Source::Close, 2), 79 + 80);
    assert_eq!(buffer.sum_last(Source::Volume, 4), 1002 + 1003 + 1004 + 1005);
    assert_eq!(buffer.sum_last(Source::High, 1), 105);
    assert_eq!(buffer.sum_last(Source::Low, 3), 53 + 54 + 55);
}

#[test]
fn capacity_of_one_keeps_the_last_bar() {
    let mut buffer = HistoryBuffer::new(1);
    buffer.push(bar(0));
    buffer.push(bar(1));
    assert_eq!(buffer.len(), 1);
    assert_eq!(buffer.window(Source::Close, 1), vec![76]);
}
