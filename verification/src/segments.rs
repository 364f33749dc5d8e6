//! The segment files of a capture among the files of a directory.

use vstd::prelude::*;

use crate::listing::DirEntry;
use crate::order::{
    arranged, is_stable_order, picked, stable_order, stable_order_lists_all, Ranking,
};
use crate::parse::{
    decimal_digits, digits_value_not_negative, is_digit, number, number_reads_all_digits,
    parse_number, without_plus,
};
use crate::text::{begins, chars_of, copy_range, decimal, ends, ends_with, starts_with};

verus! {

/// A file that holds one part of a capture.
#[derive(Debug)]
pub struct Segment {
    pub index: u32,
    pub name: String,
}

/// A segment, as a value.
pub struct Part {
    pub index: u32,
    pub name: Seq<char>,
}

impl View for Segment {
    type V = Part;

    open spec fn view(&self) -> Part {
        Part { index: self.index, name: self.name@ }
    }
}

/// The values of a list of segments.
pub open spec fn parts(v: Seq<Segment>) -> Seq<Part> {
    v.map_values(|s: Segment| s@)
}

/// A file whose name is the stem, something, and the extension.
pub open spec fn names_segment(e: DirEntry, stem: Seq<char>, ext: Seq<char>) -> bool {
    &&& !e.is_directory
    &&& begins(e.name@, stem)
    &&& ends(e.name@, ext)
    &&& stem.len() + ext.len() <= e.name@.len()
}

/// The number that stands between the stem and the extension.
pub open spec fn segment_index(e: DirEntry, stem: Seq<char>, ext: Seq<char>) -> Option<int> {
    if names_segment(e, stem, ext) {
        number(
            e.name@.subrange(stem.len() as int, e.name@.len() - ext.len()),
            10,
            u32::MAX as int,
        )
    } else {
        None
    }
}

/// The segments among the entries, as they are listed.
pub open spec fn segments_among(
    entries: Seq<DirEntry>,
    stem: Seq<char>,
    ext: Seq<char>,
) -> Seq<Part>
    decreases entries.len(),
{
    if entries.len() == 0 {
        Seq::empty()
    } else {
        let front = segments_among(entries.drop_last(), stem, ext);
        match segment_index(entries.last(), stem, ext) {
            Some(n) => front.push(Part { index: n as u32, name: entries.last().name@ }),
            None => front,
        }
    }
}

/// Segments come in the order of their numbers.
pub open spec fn index_relation(s: Seq<Part>) -> spec_fn(int, int) -> bool {
    |i: int, j: int| s[i].index <= s[j].index
}

/// `found` lists the segments among the entries by number.
pub open spec fn finds_segments(
    found: Seq<Part>,
    entries: Seq<DirEntry>,
    stem: Seq<char>,
    ext: Seq<char>,
) -> bool {
    let listed = segments_among(entries, stem, ext);
    arranged(listed, found, index_relation(listed))
}

fn is_candidate(e: &DirEntry, name: &Vec<char>, stem: &Vec<char>, ext: &Vec<char>) -> (r: bool)
    requires
        name@ == e.name@,
    ensures
        r == names_segment(*e, stem@, ext@),
{
    !e.is_directory && starts_with(name, stem) && ends_with(name, ext) && ext.len() <= name.len()
        - stem.len()
}

struct SegmentRanking<'a> {
    segments: &'a Vec<Segment>,
}

impl<'a> Ranking for SegmentRanking<'a> {
    closed spec fn valid(&self) -> bool {
        true
    }

    closed spec fn count(&self) -> nat {
        self.segments@.len()
    }

    closed spec fn relation(&self) -> spec_fn(int, int) -> bool {
        index_relation(parts(self.segments@))
    }

    proof fn total(&self, i: int, j: int) {
    }

    proof fn transitive(&self, i: int, j: int, k: int) {
    }

    fn not_after(&self, i: usize, j: usize) -> (r: bool) {
        self.segments[i].index <= self.segments[j].index
    }
}

/// The segments among the entries, by number.
pub fn select_segments(entries: &Vec<DirEntry>, stem: &str, ext: &str) -> (r: Vec<Segment>)
    ensures
        finds_segments(parts(r@), entries@, stem@, ext@),
        r@.len() <= entries@.len(),
{
    let head = chars_of(stem);
    let tail = chars_of(ext);
    let mut listed: Vec<Segment> = Vec::new();
    assert(parts(listed@) =~= Seq::<Part>::empty());
    for i in 0..entries.len()
        invariant
            head@ == stem@,
            tail@ == ext@,
            parts(listed@) == segments_among(entries@.take(i as int), stem@, ext@),
            listed@.len() <= i,
    {
        let ghost e = entries@[i as int];
        let ghost before = listed@;
        assert(entries@.take(i + 1).drop_last() =~= entries@.take(i as int));
        assert(entries@.take(i + 1).last() == e);
        let name = chars_of(entries[i].name.as_str());
        if is_candidate(&entries[i], &name, &head, &tail) {
            let to: usize = name.len() - tail.len();
            let middle = copy_range(&name, head.len(), to);
            match parse_number(&middle, 10, u32::MAX) {
                Some(index) => {
                    let segment = Segment { index, name: entries[i].name.clone() };
                    listed.push(segment);
                    assert(parts(listed@) =~= parts(before).push(segment@));
                },
                None => {},
            }
        }
    }
    assert(entries@.take(entries@.len() as int) =~= entries@);
    let ranking = SegmentRanking { segments: &listed };
    let places = stable_order(&ranking, listed.len());
    let mut out: Vec<Segment> = Vec::new();
    for i in 0..places.len()
        invariant
            is_stable_order(listed@.len(), index_relation(parts(listed@)), places@),
            parts(out@) == picked(parts(listed@), places@).take(i as int),
            out@.len() == i,
    {
        let ghost before = out@;
        let at: usize = places[i];
        let segment = Segment { index: listed[at].index, name: listed[at].name.clone() };
        out.push(segment);
        assert(parts(out@) =~= parts(before).push(segment@));
        assert(parts(out@) =~= picked(parts(listed@), places@).take(i + 1));
    }
    assert(parts(out@) =~= picked(parts(listed@), places@));
    out
}

/// Segments are listed by ascending number, and each is a file of the listing
/// that carries its number between the stem and the extension.
pub proof fn found_segments_ascend(
    found: Seq<Part>,
    entries: Seq<DirEntry>,
    stem: Seq<char>,
    ext: Seq<char>,
)
    requires
        finds_segments(found, entries, stem, ext),
    ensures
        forall|a: int, b: int|
            0 <= a < b < found.len() ==> (#[trigger] found[a]).index <= (#[trigger] found[b]).index,
        forall|a: int|
            0 <= a < found.len() ==> exists|i: int|
                0 <= i < entries.len() && (#[trigger] entries[i]).name@ == (
                #[trigger] found[a]).name && segment_index(entries[i], stem, ext) == Some(
                    found[a].index as int,
                ),
{
    let listed = segments_among(entries, stem, ext);
    let order = choose|order: Seq<usize>| #[trigger]
        is_stable_order(listed.len(), index_relation(listed), order) && found == picked(
            listed,
            order,
        );
    assert forall|a: int, b: int| 0 <= a < b < found.len() implies (#[trigger] found[a]).index <= (
    #[trigger] found[b]).index by {
        assert(index_relation(listed)(order[a] as int, order[b] as int));
    }
    assert forall|a: int| 0 <= a < found.len() implies exists|i: int|
        0 <= i < entries.len() && (#[trigger] entries[i]).name@ == (#[trigger] found[a]).name
            && segment_index(entries[i], stem, ext) == Some(found[a].index as int) by {
        listed_segment_is_entry(entries, stem, ext, order[a] as int);
        let i = choose|i: int|
            0 <= i < entries.len() && (#[trigger] entries[i]).name@ == listed[order[a] as int].name
                && segment_index(entries[i], stem, ext) == Some(
                listed[order[a] as int].index as int,
            );
        assert(entries[i].name@ == found[a].name);
    }
}

proof fn listed_segment_is_entry(
    entries: Seq<DirEntry>,
    stem: Seq<char>,
    ext: Seq<char>,
    k: int,
)
    requires
        0 <= k < segments_among(entries, stem, ext).len(),
    ensures
        ({
            let part = segments_among(entries, stem, ext)[k];
            exists|i: int|
                0 <= i < entries.len() && (#[trigger] entries[i]).name@ == part.name
                    && segment_index(entries[i], stem, ext) == Some(part.index as int)
        }),
    decreases entries.len(),
{
    let front = entries.drop_last();
    let before = segments_among(front, stem, ext);
    let part = segments_among(entries, stem, ext)[k];
    if k < before.len() {
        listed_segment_is_entry(front, stem, ext, k);
        let i = choose|i: int|
            0 <= i < front.len() && (#[trigger] front[i]).name@ == before[k].name
                && segment_index(front[i], stem, ext) == Some(before[k].index as int);
        assert(entries[i] == front[i]);
    } else {
        let i = entries.len() - 1;
        let name = entries[i].name@;
        let middle = name.subrange(stem.len() as int, name.len() - ext.len());
        let digits = without_plus(middle);
        assert(entries[i] == entries.last());
        digits_value_not_negative(digits, 10);
        assert(entries[i].name@ == part.name);
    }
}

/// Every file of the listing that carries a number between the stem and the
/// extension is found.
pub proof fn no_segment_is_missed(
    found: Seq<Part>,
    entries: Seq<DirEntry>,
    stem: Seq<char>,
    ext: Seq<char>,
    i: int,
)
    requires
        finds_segments(found, entries, stem, ext),
        0 <= i < entries.len(),
        segment_index(entries[i], stem, ext) is Some,
    ensures
        found.contains(
            (Part {
                index: segment_index(entries[i], stem, ext)->0 as u32,
                name: entries[i].name@,
            }),
        ),
{
    let listed = segments_among(entries, stem, ext);
    let part = Part {
        index: segment_index(entries[i], stem, ext)->0 as u32,
        name: entries[i].name@,
    };
    entry_is_listed(entries, stem, ext, i);
    let k = choose|k: int| 0 <= k < listed.len() && listed[k] == part;
    let order = choose|order: Seq<usize>| #[trigger]
        is_stable_order(listed.len(), index_relation(listed), order) && found == picked(
            listed,
            order,
        );
    stable_order_lists_all(listed.len(), index_relation(listed), order, k);
    let a = choose|a: int| 0 <= a < order.len() && #[trigger] order[a] as int == k;
    assert(found[a] == part);
}

proof fn entry_is_listed(entries: Seq<DirEntry>, stem: Seq<char>, ext: Seq<char>, i: int)
    requires
        0 <= i < entries.len(),
        segment_index(entries[i], stem, ext) is Some,
    ensures
        segments_among(entries, stem, ext).contains(
            (Part {
                index: segment_index(entries[i], stem, ext)->0 as u32,
                name: entries[i].name@,
            }),
        ),
    decreases entries.len(),
{
    let front = entries.drop_last();
    let before = segments_among(front, stem, ext);
    let all = segments_among(entries, stem, ext);
    if i < front.len() {
        assert(front[i] == entries[i]);
        entry_is_listed(front, stem, ext, i);
        let part = Part {
            index: segment_index(entries[i], stem, ext)->0 as u32,
            name: entries[i].name@,
        };
        let k = choose|k: int| 0 <= k < before.len() && before[k] == part;
        assert(all[k] == part);
    } else {
        assert(all.last() == all[all.len() - 1]);
    }
}

/// A file that is named with the stem, a number and the extension is the segment
/// of that number, with zeros or a plus sign in front of it or without; whatever
/// else stands between stem and extension makes no segment, nor does a
/// directory.
pub proof fn segment_is_named_by_its_number(
    e: DirEntry,
    stem: Seq<char>,
    middle: Seq<char>,
    ext: Seq<char>,
)
    requires
        e.name@ == stem + middle + ext,
    ensures
        e.is_directory ==> segment_index(e, stem, ext) is None,
        !e.is_directory ==> segment_index(e, stem, ext) == number(middle, 10, u32::MAX as int),
        forall|n: u32|
            !e.is_directory && middle == #[trigger] decimal(n as nat) ==> segment_index(
                e,
                stem,
                ext,
            ) == Some(n as int),
{
    let name = e.name@;
    assert(name.take(stem.len() as int) =~= stem);
    assert(name.skip(name.len() - ext.len()) =~= ext);
    assert(name.subrange(stem.len() as int, name.len() - ext.len()) =~= middle);
    assert forall|n: u32|
        !e.is_directory && middle == #[trigger] decimal(n as nat) implies segment_index(
        e,
        stem,
        ext,
    ) == Some(n as int) by {
        decimal_digits(n as nat);
        assert(is_digit(middle[0], 10));
        number_reads_all_digits(middle, 10, u32::MAX as int);
    }
}

/// What does not begin with the stem and end with the extension, each with
/// characters of its own, is no segment.
pub proof fn other_names_are_no_segments(e: DirEntry, stem: Seq<char>, ext: Seq<char>) -> (middle:
    Seq<char>)
    requires
        segment_index(e, stem, ext) is Some,
    ensures
        !e.is_directory,
        e.name@ == stem + middle + ext,
        middle.len() > 0,
{
    let name = e.name@;
    let middle = name.subrange(stem.len() as int, name.len() - ext.len());
    assert(name =~= name.take(stem.len() as int) + middle + name.skip(name.len() - ext.len()));
    middle
}

/// A list of segments is seen as their numbers and names, in their order.
pub proof fn parts_are_numbers_and_names(v: Seq<Segment>)
    ensures
        parts(v).len() == v.len(),
        forall|i: int|
            0 <= i < v.len() ==> (#[trigger] parts(v)[i]).index == v[i].index && parts(v)[i].name
                == v[i].name@,
{
}

} // verus!
