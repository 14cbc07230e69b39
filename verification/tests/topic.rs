use tagme::error::ApiError;
use tagme::lists::{all_distinct, find_tag, find_text, remove_tag_entry, remove_text};
use tagme::models::{Top, Topic};

fn s(text: &str) -> String {
    text.to_string()
}

#[test]
fn new_topic_is_empty() {
    let topic = Topic::new(7, s("systems"));
    assert_eq!(
        topic,
        Topic { author: 7, description: s("systems"), tags: vec![], pending_tags: vec![] }
    );
    assert!(topic.is_wf());
}

#[test]
fn stranger_proposes_and_owner_confirms() {
    let mut topic = Topic::new(1, s("systems"));
    assert_eq!(topic.add_tag(&s("fast"), false), Ok(()));
    assert_eq!(topic.tags, vec![]);
    assert_eq!(topic.pending_tags, vec![s("fast")]);
    assert_eq!(topic.add_tag(&s("fast"), true), Ok(()));
    assert_eq!(topic.tags, vec![(s("fast"), 1)]);
    assert_eq!(topic.pending_tags, Vec::<String>::new());
    assert_eq!(topic.add_tag(&s("fast"), false), Ok(()));
    assert_eq!(topic.tags, vec![(s("fast"), 2)]);
    assert_eq!(topic.pending_tags, Vec::<String>::new());
}

#[test]
fn endorsing_raises_one_count_by_one() {
    let mut topic = Topic {
        author: 1,
        description: s("d"),
        tags: vec![(s("a"), 5), (s("b"), 9), (s("c"), 0)],
        pending_tags: vec![s("x"), s("y")],
    };
    assert_eq!(topic.add_tag(&s("b"), false), Ok(()));
    assert_eq!(topic.tags, vec![(s("a"), 5), (s("b"), 10), (s("c"), 0)]);
    assert_eq!(topic.pending_tags, vec![s("x"), s("y")]);
    assert_eq!(topic.add_tag(&s("b"), true), Ok(()));
    assert_eq!(topic.tags, vec![(s("a"), 5), (s("b"), 11), (s("c"), 0)]);
    assert_eq!(topic.pending_tags, vec![s("x"), s("y")]);
    assert!(topic.is_wf());
}

#[test]
fn proposing_twice_waits_once() {
    let mut topic = Topic::new(1, s("d"));
    assert_eq!(topic.add_tag(&s("x"), false), Ok(()));
    assert_eq!(topic.add_tag(&s("x"), false), Ok(()));
    assert_eq!(topic.pending_tags, vec![s("x")]);
    assert_eq!(topic.tags, vec![]);
}

#[test]
fn owner_adds_a_new_tag_directly() {
    let mut topic = Topic {
        author: 1,
        description: s("d"),
        tags: vec![(s("a"), 1)],
        pending_tags: vec![s("x"), s("y"), s("z")],
    };
    assert_eq!(topic.add_tag(&s("y"), true), Ok(()));
    assert_eq!(topic.tags, vec![(s("a"), 1), (s("y"), 1)]);
    assert_eq!(topic.pending_tags, vec![s("x"), s("z")]);
    assert_eq!(topic.add_tag(&s("new"), true), Ok(()));
    assert_eq!(topic.tags, vec![(s("a"), 1), (s("y"), 1), (s("new"), 1)]);
    assert_eq!(topic.pending_tags, vec![s("x"), s("z")]);
}

#[test]
fn full_count_is_refused_and_nothing_changes() {
    let mut topic = Topic {
        author: 1,
        description: s("d"),
        tags: vec![(s("a"), u32::MAX), (s("b"), u32::MAX - 1)],
        pending_tags: vec![],
    };
    let before = topic.clone();
    assert_eq!(topic.add_tag(&s("a"), false), Err(ApiError::InvalidTag));
    assert_eq!(topic, before);
    assert_eq!(topic.add_tag(&s("b"), false), Ok(()));
    assert_eq!(topic.tags[1], (s("b"), u32::MAX));
}

#[test]
fn remove_tag_takes_it_from_both_lists() {
    let mut topic = Topic {
        author: 1,
        description: s("d"),
        tags: vec![(s("a"), 1), (s("b"), 2)],
        pending_tags: vec![s("x"), s("y")],
    };
    topic.remove_tag(&s("a"));
    assert_eq!(topic.tags, vec![(s("b"), 2)]);
    assert_eq!(topic.pending_tags, vec![s("x"), s("y")]);
    topic.remove_tag(&s("y"));
    assert_eq!(topic.tags, vec![(s("b"), 2)]);
    assert_eq!(topic.pending_tags, vec![s("x")]);
    topic.remove_tag(&s("absent"));
    assert_eq!(topic.tags, vec![(s("b"), 2)]);
    assert_eq!(topic.pending_tags, vec![s("x")]);
}

#[test]
fn well_formedness_is_checked() {
    let good = Topic {
        author: 1,
        description: s("d"),
        tags: vec![(s("a"), 1), (s("b"), 2)],
        pending_tags: vec![s("x")],
    };
    assert!(good.is_wf());
    let twice_counted = Topic { tags: vec![(s("a"), 1), (s("a"), 2)], ..good.clone() };
    assert!(!twice_counted.is_wf());
    let twice_waiting = Topic { pending_tags: vec![s("x"), s("x")], ..good.clone() };
    assert!(!twice_waiting.is_wf());
    let both = Topic { pending_tags: vec![s("b")], ..good.clone() };
    assert!(!both.is_wf());
}

#[test]
fn list_helpers() {
    let items = vec![s("a"), s("b"), s("a"), s("c")];
    assert_eq!(find_text(&items, &s("a")), Some(0));
    assert_eq!(find_text(&items, &s("c")), Some(3));
    assert_eq!(find_text(&items, &s("z")), None);
    assert_eq!(remove_text(&items, &s("a")), vec![s("b"), s("c")]);
    assert_eq!(remove_text(&items, &s("z")), items);
    assert!(!all_distinct(&items));
    assert!(all_distinct(&vec![s("a"), s("b")]));
    assert!(all_distinct(&Vec::new()));
    let tags = vec![(s("a"), 1), (s("b"), 2)];
    assert_eq!(find_tag(&tags, &s("b")), Some(1));
    assert_eq!(find_tag(&tags, &s("z")), None);
    assert_eq!(remove_tag_entry(&tags, &s("a")), vec![(s("b"), 2)]);
}

#[test]
fn default_top_is_empty() {
    assert_eq!(Top::default(), Top(vec![]));
}

#[test]
fn same_content_ignores_the_order_of_tags() {
    let a = Topic {
        author: 1,
        description: s("d"),
        tags: vec![(s("a"), 1), (s("b"), 2)],
        pending_tags: vec![s("x"), s("y")],
    };
    let b = Topic {
        author: 1,
        description: s("d"),
        tags: vec![(s("b"), 2), (s("a"), 1)],
        pending_tags: vec![s("y"), s("x")],
    };
    assert!(a.same_as(&b));
    assert!(b.same_as(&a));
    assert!(!a.same_as(&Topic { author: 2, ..b.clone() }));
    assert!(!a.same_as(&Topic { description: s("e"), ..b.clone() }));
    assert!(!a.same_as(&Topic { tags: vec![(s("b"), 2), (s("a"), 2)], ..b.clone() }));
    assert!(!a.same_as(&Topic { tags: vec![(s("b"), 2)], ..b.clone() }));
    assert!(!a.same_as(&Topic { tags: vec![(s("b"), 2), (s("a"), 1), (s("c"), 0)], ..b.clone() }));
    assert!(!a.same_as(&Topic { pending_tags: vec![s("y")], ..b.clone() }));
    assert!(!a.same_as(&Topic { pending_tags: vec![s("y"), s("x"), s("z")], ..b.clone() }));
}

#[test]
fn same_list_is_same_order() {
    assert!(Top(vec![s("a"), s("b")]).same_as(&Top(vec![s("a"), s("b")])));
    assert!(!Top(vec![s("a"), s("b")]).same_as(&Top(vec![s("b"), s("a")])));
    assert!(!Top(vec![s("a")]).same_as(&Top(vec![s("a"), s("b")])));
    assert!(Top(vec![]).same_as(&Top(vec![])));
}
