//! Lists of names that stand for sets, and lists of counted tags that stand
//! for maps: searching them and taking a name out.

use vstd::prelude::*;

verus! {

/// The texts of a list of strings, in order.
pub open spec fn texts(items: Seq<String>) -> Seq<Seq<char>> {
    items.map_values(|s: String| s@)
}

/// The entries of a list of counted tags, in order, each name by its text.
pub open spec fn entries(tags: Seq<(String, u32)>) -> Seq<(Seq<char>, u32)> {
    tags.map_values(|e: (String, u32)| (e.0@, e.1))
}

/// The names of a list of counted tags, in order.
pub open spec fn names(tags: Seq<(Seq<char>, u32)>) -> Seq<Seq<char>> {
    tags.map_values(|e: (Seq<char>, u32)| e.0)
}

/// The test that a text is another one than `text`.
pub open spec fn other_than(text: Seq<char>) -> spec_fn(Seq<char>) -> bool {
    |t: Seq<char>| t != text
}

/// The test that an entry has another name than `name`.
pub open spec fn named_other_than(name: Seq<char>) -> spec_fn((Seq<char>, u32)) -> bool {
    |e: (Seq<char>, u32)| e.0 != name
}

/// `items` without every occurrence of `text`.
pub open spec fn without(items: Seq<Seq<char>>, text: Seq<char>) -> Seq<Seq<char>> {
    items.filter(other_than(text))
}

/// `tags` without every entry named `name`.
pub open spec fn without_tag(tags: Seq<(Seq<char>, u32)>, name: Seq<char>) -> Seq<
    (Seq<char>, u32),
> {
    tags.filter(named_other_than(name))
}

/// The count that `tags` holds for `name`, where it holds one.
pub open spec fn count_of(tags: Seq<(Seq<char>, u32)>, name: Seq<char>) -> Option<u32> {
    if names(tags).contains(name) {
        Some(tags[names(tags).index_of(name)].1)
    } else {
        None
    }
}

/// No text of `left` occurs in `right`.
pub open spec fn disjoint(left: Seq<Seq<char>>, right: Seq<Seq<char>>) -> bool {
    forall|i: int, j: int| 0 <= i < left.len() && 0 <= j < right.len() ==> left[i] != right[j]
}

/// Taking a name out leaves no occurrence of it, keeps every other name, and
/// adds none.
pub proof fn lemma_without_contains(items: Seq<Seq<char>>, text: Seq<char>, other: Seq<char>)
    ensures
        without(items, text).contains(other) <==> (other != text && items.contains(other)),
{
    let pred = other_than(text);
    let kept = items.filter(pred);
    if kept.contains(other) {
        let i = choose|i: int| 0 <= i < kept.len() && kept[i] == other;
        items.lemma_filter_pred(pred, i);
        items.lemma_filter_contains_rev(pred, other);
    }
    if other != text && items.contains(other) {
        let i = choose|i: int| 0 <= i < items.len() && items[i] == other;
        items.lemma_filter_contains(pred, i);
    }
}

/// Taking a name out of a list without repetition leaves one without
/// repetition.
pub proof fn lemma_without_no_duplicates(items: Seq<Seq<char>>, text: Seq<char>)
    requires
        items.no_duplicates(),
    ensures
        without(items, text).no_duplicates(),
    decreases items.len(),
{
    let pred = other_than(text);
    if items.len() == 0 {
        items.lemma_filter_len(pred);
    } else {
        let front = items.drop_last();
        let last = items.last();
        assert(items =~= front.push(last));
        front.lemma_filter_push(last, pred);
        lemma_without_no_duplicates(front, text);
        if pred(last) {
            lemma_without_contains(front, text, last);
            if front.contains(last) {
                let i = choose|i: int| 0 <= i < front.len() && front[i] == last;
                assert(items[i] == items[items.len() - 1]);
            }
            let kept = without(front, text);
            assert forall|a: int, b: int|
                0 <= a < kept.len() + 1 && 0 <= b < kept.len() + 1 && a != b implies kept.push(
                last,
            )[a] != kept.push(last)[b] by {
                if a == kept.len() {
                    assert(kept[b] != last);
                } else if b == kept.len() {
                    assert(kept[a] != last);
                }
            }
        }
    }
}

/// The first place of `text` in `items`, if it occurs there.
pub fn find_text(items: &Vec<String>, text: &String) -> (found: Option<usize>)
    ensures
        match found {
            Some(i) => {
                &&& i < items.len()
                &&& items[i as int]@ == text@
                &&& forall|j: int| 0 <= j < i ==> items[j]@ != text@
            },
            None => !texts(items@).contains(text@),
        },
{
    let mut i: usize = 0;
    while i < items.len()
        invariant
            i <= items.len(),
            forall|j: int| 0 <= j < i ==> items[j]@ != text@,
        decreases items.len() - i,
    {
        if items[i] == *text {
            return Some(i);
        }
        i += 1;
    }
    assert forall|j: int| 0 <= j < texts(items@).len() implies texts(items@)[j] != text@ by {
        assert(texts(items@)[j] == items[j]@);
    }
    None
}

/// The place of the entry named `name` in `tags`, if there is one.
pub fn find_tag(tags: &Vec<(String, u32)>, name: &String) -> (found: Option<usize>)
    ensures
        match found {
            Some(i) => {
                &&& i < tags.len()
                &&& tags[i as int].0@ == name@
                &&& forall|j: int| 0 <= j < i ==> tags[j].0@ != name@
            },
            None => !names(entries(tags@)).contains(name@),
        },
{
    let mut i: usize = 0;
    while i < tags.len()
        invariant
            i <= tags.len(),
            forall|j: int| 0 <= j < i ==> tags[j].0@ != name@,
        decreases tags.len() - i,
    {
        if tags[i].0 == *name {
            return Some(i);
        }
        i += 1;
    }
    assert forall|j: int| 0 <= j < names(entries(tags@)).len() implies names(entries(tags@))[j]
        != name@ by {
        assert(names(entries(tags@))[j] == tags[j].0@);
    }
    None
}

/// A copy of `items` without every occurrence of `text`.
pub fn remove_text(items: &Vec<String>, text: &String) -> (kept: Vec<String>)
    ensures
        texts(kept@) == without(texts(items@), text@),
{
    let mut kept: Vec<String> = Vec::new();
    let mut i: usize = 0;
    let ghost pred = other_than(text@);
    assert(texts(items@).take(0) =~= Seq::empty());
    assert(texts(kept@) =~= Seq::empty());
    while i < items.len()
        invariant
            i <= items.len(),
            pred == other_than(text@),
            texts(kept@) == texts(items@).take(i as int).filter(pred),
        decreases items.len() - i,
    {
        proof {
            let all = texts(items@);
            assert(all.take(i + 1) =~= all.take(i as int).push(items[i as int]@));
            all.take(i as int).lemma_filter_push(items[i as int]@, pred);
        }
        if items[i] != *text {
            let ghost before = kept@;
            kept.push(items[i].clone());
            assert(texts(kept@) =~= texts(before).push(items[i as int]@));
        }
        i += 1;
    }
    assert(texts(items@).take(items.len() as int) =~= texts(items@));
    kept
}

/// A copy of `tags` without every entry named `name`.
pub fn remove_tag_entry(tags: &Vec<(String, u32)>, name: &String) -> (kept: Vec<(String, u32)>)
    ensures
        entries(kept@) == without_tag(entries(tags@), name@),
{
    let mut kept: Vec<(String, u32)> = Vec::new();
    let mut i: usize = 0;
    let ghost pred = named_other_than(name@);
    assert(entries(tags@).take(0) =~= Seq::empty());
    assert(entries(kept@) =~= Seq::empty());
    while i < tags.len()
        invariant
            i <= tags.len(),
            pred == named_other_than(name@),
            entries(kept@) == entries(tags@).take(i as int).filter(pred),
        decreases tags.len() - i,
    {
        proof {
            let all = entries(tags@);
            let entry = (tags[i as int].0@, tags[i as int].1);
            assert(all.take(i + 1) =~= all.take(i as int).push(entry));
            all.take(i as int).lemma_filter_push(entry, pred);
        }
        if tags[i].0 != *name {
            let ghost before = kept@;
            kept.push((tags[i].0.clone(), tags[i].1));
            assert(entries(kept@) =~= entries(before).push((tags[i as int].0@, tags[i as int].1)));
        }
        i += 1;
    }
    assert(entries(tags@).take(tags.len() as int) =~= entries(tags@));
    kept
}

/// Whether no text occurs twice in `items`.
pub fn all_distinct(items: &Vec<String>) -> (b: bool)
    ensures
        b == texts(items@).no_duplicates(),
{
    let mut i: usize = 0;
    while i < items.len()
        invariant
            i <= items.len(),
            forall|a: int, b: int| 0 <= a < b < i ==> items[a]@ != items[b]@,
        decreases items.len() - i,
    {
        let mut j: usize = 0;
        while j < i
            invariant
                j <= i,
                i < items.len(),
                forall|a: int| 0 <= a < j ==> items[a]@ != items[i as int]@,
            decreases i - j,
        {
            if items[j] == items[i] {
                proof {
                    assert(texts(items@)[j as int] == texts(items@)[i as int]);
                }
                return false;
            }
            j += 1;
        }
        i += 1;
    }
    assert forall|a: int, b: int|
        0 <= a < texts(items@).len() && 0 <= b < texts(items@).len() && a != b implies texts(
        items@,
    )[a] != texts(items@)[b] by {
        if a < b {
            assert(items[a]@ != items[b]@);
        } else {
            assert(items[b]@ != items[a]@);
        }
    }
    true
}

/// A list of counted tags as a map from name to count.
pub open spec fn counts(tags: Seq<(Seq<char>, u32)>) -> Map<Seq<char>, u32> {
    Map::new(
        |t: Seq<char>| names(tags).contains(t),
        |t: Seq<char>| tags[names(tags).index_of(t)].1,
    )
}

/// Every item of `left` occurs in `right`.
pub open spec fn within<T>(left: Seq<T>, right: Seq<T>) -> bool {
    forall|i: int| 0 <= i < left.len() ==> right.contains(#[trigger] left[i])
}

/// Two lists stand for the same set exactly if each lies within the other.
pub proof fn lemma_same_set(left: Seq<Seq<char>>, right: Seq<Seq<char>>)
    ensures
        (left.to_set() == right.to_set()) <==> (within(left, right) && within(right, left)),
{
    if left.to_set() == right.to_set() {
        assert forall|i: int| 0 <= i < left.len() implies right.contains(#[trigger] left[i]) by {
            assert(left.contains(left[i]));
            assert(left.to_set().contains(left[i]));
        }
        assert forall|i: int| 0 <= i < right.len() implies left.contains(#[trigger] right[i]) by {
            assert(right.contains(right[i]));
            assert(right.to_set().contains(right[i]));
        }
    }
    if within(left, right) && within(right, left) {
        assert forall|t: Seq<char>| left.to_set().contains(t) <==> right.to_set().contains(t) by {
            if left.contains(t) {
                let i = choose|i: int| 0 <= i < left.len() && left[i] == t;
                assert(right.contains(left[i]));
            }
            if right.contains(t) {
                let i = choose|i: int| 0 <= i < right.len() && right[i] == t;
                assert(left.contains(right[i]));
            }
        }
        assert(left.to_set() =~= right.to_set());
    }
}

/// In a list of counted tags without a repeated name, each entry is the one
/// that the map holds for its name.
pub proof fn lemma_counts_at(tags: Seq<(Seq<char>, u32)>, i: int)
    requires
        names(tags).no_duplicates(),
        0 <= i < tags.len(),
    ensures
        counts(tags).contains_key(tags[i].0),
        counts(tags)[tags[i].0] == tags[i].1,
{
    assert(names(tags)[i] == tags[i].0);
    let k = names(tags).index_of(tags[i].0);
    assert(names(tags)[k] == names(tags)[i]);
}

/// Two lists of counted tags without a repeated name stand for the same map
/// exactly if each lies within the other.
pub proof fn lemma_same_counts(left: Seq<(Seq<char>, u32)>, right: Seq<(Seq<char>, u32)>)
    requires
        names(left).no_duplicates(),
        names(right).no_duplicates(),
    ensures
        (counts(left) == counts(right)) <==> (within(left, right) && within(right, left)),
{
    if counts(left) == counts(right) {
        lemma_counts_within(left, right);
        lemma_counts_within(right, left);
    }
    if within(left, right) && within(right, left) {
        assert forall|t: Seq<char>| counts(left).contains_key(t) <==> counts(right).contains_key(
            t,
        ) by {
            if names(left).contains(t) {
                let i = choose|i: int| 0 <= i < names(left).len() && names(left)[i] == t;
                assert(right.contains(left[i]));
                let j = choose|j: int| 0 <= j < right.len() && right[j] == left[i];
                assert(names(right)[j] == t);
            }
            if names(right).contains(t) {
                let i = choose|i: int| 0 <= i < names(right).len() && names(right)[i] == t;
                assert(left.contains(right[i]));
                let j = choose|j: int| 0 <= j < left.len() && left[j] == right[i];
                assert(names(left)[j] == t);
            }
        }
        assert forall|t: Seq<char>| counts(left).contains_key(t) implies counts(left)[t] == counts(
            right,
        )[t] by {
            let i = choose|i: int| 0 <= i < names(left).len() && names(left)[i] == t;
            lemma_counts_at(left, i);
            assert(right.contains(left[i]));
            let j = choose|j: int| 0 <= j < right.len() && right[j] == left[i];
            lemma_counts_at(right, j);
        }
        assert(counts(left) =~= counts(right));
    }
}

/// Where two lists of counted tags without a repeated name stand for the
/// same map, the first lies within the second.
proof fn lemma_counts_within(left: Seq<(Seq<char>, u32)>, right: Seq<(Seq<char>, u32)>)
    requires
        names(left).no_duplicates(),
        names(right).no_duplicates(),
        counts(left) == counts(right),
    ensures
        within(left, right),
{
    assert forall|i: int| 0 <= i < left.len() implies right.contains(#[trigger] left[i]) by {
        lemma_counts_at(left, i);
        let t = left[i].0;
        assert(counts(right).contains_key(t));
        let j = choose|j: int| 0 <= j < names(right).len() && names(right)[j] == t;
        lemma_counts_at(right, j);
        assert(right[j] == left[i]);
    }
}

/// Whether two lists hold the same texts in the same order.
pub fn same_texts(left: &Vec<String>, right: &Vec<String>) -> (same: bool)
    ensures
        same == (texts(left@) == texts(right@)),
{
    if left.len() != right.len() {
        assert(texts(left@).len() != texts(right@).len());
        return false;
    }
    let mut i: usize = 0;
    while i < left.len()
        invariant
            i <= left.len(),
            left.len() == right.len(),
            forall|j: int| 0 <= j < i ==> left[j]@ == right[j]@,
        decreases left.len() - i,
    {
        if left[i] != right[i] {
            assert(texts(left@)[i as int] != texts(right@)[i as int]);
            return false;
        }
        i += 1;
    }
    assert(texts(left@) =~= texts(right@));
    true
}

/// Whether every text of `left` occurs in `right`.
pub fn texts_within(left: &Vec<String>, right: &Vec<String>) -> (all: bool)
    ensures
        all == within(texts(left@), texts(right@)),
{
    let mut i: usize = 0;
    while i < left.len()
        invariant
            i <= left.len(),
            forall|j: int| 0 <= j < i ==> texts(right@).contains(#[trigger] texts(left@)[j]),
        decreases left.len() - i,
    {
        match find_text(right, &left[i]) {
            Some(k) => {
                assert(texts(right@)[k as int] == texts(left@)[i as int]);
            },
            None => {
                assert(!texts(right@).contains(texts(left@)[i as int]));
                return false;
            },
        }
        i += 1;
    }
    true
}

/// Whether every entry of `left` is an entry of `right`, which names no tag
/// twice.
pub fn tags_within(left: &Vec<(String, u32)>, right: &Vec<(String, u32)>) -> (all: bool)
    requires
        names(entries(right@)).no_duplicates(),
    ensures
        all == within(entries(left@), entries(right@)),
{
    let mut i: usize = 0;
    while i < left.len()
        invariant
            i <= left.len(),
            names(entries(right@)).no_duplicates(),
            forall|j: int| 0 <= j < i ==> entries(right@).contains(#[trigger] entries(left@)[j]),
        decreases left.len() - i,
    {
        let ghost entry = entries(left@)[i as int];
        match find_tag(right, &left[i].0) {
            Some(k) => {
                if right[k].1 != left[i].1 {
                    proof {
                        if entries(right@).contains(entry) {
                            let j = choose|j: int|
                                0 <= j < entries(right@).len() && entries(right@)[j] == entry;
                            assert(names(entries(right@))[j] == entry.0);
                            assert(names(entries(right@))[k as int] == entry.0);
                            assert(j == k);
                            assert(entries(right@)[k as int].1 == right[k as int].1);
                        }
                        assert(!entries(right@).contains(entries(left@)[i as int]));
                    }
                    return false;
                }
                assert(entries(right@)[k as int] == entry);
            },
            None => {
                proof {
                    if entries(right@).contains(entry) {
                        let j = choose|j: int|
                            0 <= j < entries(right@).len() && entries(right@)[j] == entry;
                        assert(names(entries(right@))[j] == entry.0);
                    }
                    assert(!entries(right@).contains(entries(left@)[i as int]));
                }
                return false;
            },
        }
        i += 1;
    }
    true
}

} // verus!
