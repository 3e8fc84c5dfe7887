use chatbix::message::Message;
use chatbix::selector::{select_messages, Interval, DEFAULT_LAST_COUNT};

fn msg(id: i32, timestamp: i64, channel: Option<&str>) -> Message {
    Message {
        id,
        author: format!("author{}", id),
        timestamp,
        content: format!("content{}", id),
        tags: 0,
        color: None,
        channel: channel.map(|c| c.to_owned()),
    }
}

fn ids(v: &[Message]) -> Vec<i32> {
    v.iter().map(|m| m.id).collect()
}

#[test]
fn last_two_default_channel_only() {
    // Three default-channel messages at t1 < t2 < t3, one "dev" message
    // at t4 > t3. With no requested channels and the default included,
    // the dev message is invisible and the result is the two most
    // recent default ones, oldest first.
    let store = vec![
        msg(1, 100, None),
        msg(2, 200, None),
        msg(3, 300, None),
        msg(4, 400, Some("dev")),
    ];
    let r = select_messages(&store, &Interval::Last(2), &Vec::new(), true);
    assert_eq!(ids(&r), vec![2, 3]);
    assert_eq!(r[0].timestamp, 200);
    assert_eq!(r[1].timestamp, 300);
}

#[test]
fn all_from_id_is_strict() {
    // The cursor id itself is never returned.
    let store = vec![
        msg(3, 30, None),
        msg(4, 40, None),
        msg(5, 50, None),
        msg(6, 60, None),
        msg(7, 70, None),
    ];
    let r = select_messages(&store, &Interval::AllFromId(5), &Vec::new(), true);
    assert_eq!(ids(&r), vec![6, 7]);
}

#[test]
fn all_from_timestamp_is_strict() {
    let store = vec![msg(1, 100, None), msg(2, 200, None), msg(3, 300, None)];
    let r = select_messages(&store, &Interval::AllFromTimestamp(200), &Vec::new(), true);
    assert_eq!(ids(&r), vec![3]);
}

#[test]
fn from_to_timestamp_is_exclusive_on_both_ends() {
    let store = vec![
        msg(1, 100, None),
        msg(2, 200, None),
        msg(3, 300, None),
        msg(4, 400, None),
    ];
    let r = select_messages(&store, &Interval::FromToTimestamp(100, 400), &Vec::new(), true);
    assert_eq!(ids(&r), vec![2, 3]);
}

#[test]
fn named_channel_is_selected_and_default_excluded_on_demand() {
    let store = vec![
        msg(1, 100, None),
        msg(2, 200, Some("dev")),
        msg(3, 300, Some("ops")),
    ];
    let channels = vec!["dev".to_owned()];
    let with_default = select_messages(&store, &Interval::Last(10), &channels, true);
    assert_eq!(ids(&with_default), vec![1, 2]);
    let without_default = select_messages(&store, &Interval::Last(10), &channels, false);
    assert_eq!(ids(&without_default), vec![2]);
}

#[test]
fn no_channels_and_no_default_selects_nothing() {
    let store = vec![msg(1, 100, None), msg(2, 200, Some("dev"))];
    let r = select_messages(&store, &Interval::Last(10), &Vec::new(), false);
    assert!(r.is_empty());
}

#[test]
fn results_come_back_ascending_whatever_the_stored_order() {
    let store = vec![msg(3, 300, None), msg(1, 100, None), msg(2, 200, None)];
    let r = select_messages(&store, &Interval::AllFromId(0), &Vec::new(), true);
    assert_eq!(ids(&r), vec![1, 2, 3]);
}

#[test]
fn equal_timestamps_are_ordered_by_id() {
    let store = vec![msg(5, 100, None), msg(2, 100, None), msg(9, 100, None)];
    let r = select_messages(&store, &Interval::AllFromId(0), &Vec::new(), true);
    assert_eq!(ids(&r), vec![2, 5, 9]);
}

#[test]
fn last_with_ties_keeps_the_greatest_ids() {
    let store = vec![msg(5, 100, None), msg(2, 100, None), msg(9, 100, None)];
    let r = select_messages(&store, &Interval::Last(2), &Vec::new(), true);
    assert_eq!(ids(&r), vec![5, 9]);
}

#[test]
fn last_clamps_to_available_and_to_zero() {
    let store = vec![msg(1, 100, None), msg(2, 200, None)];
    let all = select_messages(&store, &Interval::Last(10), &Vec::new(), true);
    assert_eq!(ids(&all), vec![1, 2]);
    let none = select_messages(&store, &Interval::Last(0), &Vec::new(), true);
    assert!(none.is_empty());
    let negative = select_messages(&store, &Interval::Last(-3), &Vec::new(), true);
    assert!(negative.is_empty());
}

#[test]
fn default_interval_is_last_150() {
    assert_eq!(Interval::default(), Interval::Last(150));
    assert_eq!(DEFAULT_LAST_COUNT, 150);
}

#[test]
fn selection_copies_all_fields() {
    let store = vec![Message {
        id: 7,
        author: "ada".to_owned(),
        timestamp: 123,
        content: "hello".to_owned(),
        tags: 0b1010,
        color: Some("red".to_owned()),
        channel: Some("dev".to_owned()),
    }];
    let channels = vec!["dev".to_owned()];
    let r = select_messages(&store, &Interval::AllFromId(0), &channels, false);
    assert_eq!(r.len(), 1);
    assert_eq!(r[0].id, 7);
    assert_eq!(r[0].author, "ada");
    assert_eq!(r[0].timestamp, 123);
    assert_eq!(r[0].content, "hello");
    assert_eq!(r[0].tags, 0b1010);
    assert_eq!(r[0].color.as_deref(), Some("red"));
    assert_eq!(r[0].channel.as_deref(), Some("dev"));
}
