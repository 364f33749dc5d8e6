//! Directory entries and the orders in which they are listed.

use vstd::prelude::*;

use crate::order::{
    arranged, arranged_keeps_items, arranged_unique, is_stable_order, picked, stable_order,
    stable_order_exists, Ranking,
};
use crate::text::{lower_chars, lowered};

verus! {

/// One entry of a remote directory. Times are raw FILETIME ticks.
#[derive(Debug)]
pub struct DirEntry {
    pub name: String,
    pub size: u64,
    pub is_directory: bool,
    pub create_time: u64,
    pub change_time: u64,
}

impl DirEntry {
    /// A copy of the entry.
    pub fn copy(&self) -> (r: DirEntry)
        ensures
            r == *self,
    {
        DirEntry {
            name: self.name.clone(),
            size: self.size,
            is_directory: self.is_directory,
            create_time: self.create_time,
            change_time: self.change_time,
        }
    }
}

/// The field a listing is sorted by.
#[derive(Copy, Clone, Debug, PartialEq, Eq, Structural)]
pub enum LsSortBy {
    /// Alphabetical by entry name (case-insensitive).
    Name,
    /// Numeric by file size. Directories compare as zero.
    Size,
    /// Group by kind: directories first (or last, depending on order).
    Kind,
    /// Last-change timestamp.
    Modified,
    /// Creation timestamp.
    Created,
}

/// The direction of a listing.
#[derive(Copy, Clone, Debug, PartialEq, Eq, Structural)]
pub enum SortOrder {
    /// Ascending (A-Z, smallest first, oldest first).
    Asc,
    /// Descending (Z-A, largest first, newest first).
    Desc,
}

/// Lexicographic order of character sequences.
pub open spec fn text_le(a: Seq<char>, b: Seq<char>) -> bool
    decreases a.len(),
{
    if a.len() == 0 {
        true
    } else if b.len() == 0 {
        false
    } else if a[0] == b[0] {
        text_le(a.drop_first(), b.drop_first())
    } else {
        a[0] < b[0]
    }
}

pub proof fn text_le_total(a: Seq<char>, b: Seq<char>)
    ensures
        text_le(a, b) || text_le(b, a),
    decreases a.len(),
{
    if a.len() > 0 && b.len() > 0 && a[0] == b[0] {
        text_le_total(a.drop_first(), b.drop_first());
    }
}

pub proof fn text_le_transitive(a: Seq<char>, b: Seq<char>, c: Seq<char>)
    requires
        text_le(a, b),
        text_le(b, c),
    ensures
        text_le(a, c),
    decreases a.len(),
{
    if a.len() > 0 && b.len() > 0 && c.len() > 0 && a[0] == b[0] && b[0] == c[0] {
        text_le_transitive(a.drop_first(), b.drop_first(), c.drop_first());
    }
}

fn text_not_after(a: &Vec<char>, b: &Vec<char>) -> (r: bool)
    ensures
        r == text_le(a@, b@),
{
    let mut i: usize = 0;
    assert(a@.skip(0) =~= a@);
    assert(b@.skip(0) =~= b@);
    while i < a.len() && i < b.len() && a[i] == b[i]
        invariant
            i <= a@.len(),
            i <= b@.len(),
            text_le(a@, b@) == text_le(a@.skip(i as int), b@.skip(i as int)),
        decreases a.len() - i,
    {
        assert(a@.skip(i as int).drop_first() =~= a@.skip(i + 1));
        assert(b@.skip(i as int).drop_first() =~= b@.skip(i + 1));
        i += 1;
    }
    if i == a.len() {
        true
    } else if i == b.len() {
        false
    } else {
        a[i] < b[i]
    }
}

/// The number an entry is ranked by; names rank by their text instead.
pub open spec fn sort_key(e: DirEntry, sort_by: LsSortBy) -> int {
    match sort_by {
        LsSortBy::Name => 0,
        LsSortBy::Size => if e.is_directory {
            0
        } else {
            e.size as int
        },
        LsSortBy::Kind => if e.is_directory {
            1
        } else {
            0
        },
        LsSortBy::Modified => e.change_time as int,
        LsSortBy::Created => e.create_time as int,
    }
}

/// Whether `a` may be listed before `b`: by the chosen field in the chosen
/// direction, and by ascending name where that field is equal.
pub open spec fn listed_before(
    a: DirEntry,
    b: DirEntry,
    sort_by: LsSortBy,
    order: SortOrder,
) -> bool {
    let name_a = lowered(a.name@);
    let name_b = lowered(b.name@);
    let key_a = sort_key(a, sort_by);
    let key_b = sort_key(b, sort_by);
    if sort_by == LsSortBy::Name {
        if order == SortOrder::Asc {
            text_le(name_a, name_b)
        } else {
            text_le(name_b, name_a)
        }
    } else if key_a == key_b {
        text_le(name_a, name_b)
    } else if order == SortOrder::Asc {
        key_a < key_b
    } else {
        key_a > key_b
    }
}

proof fn listed_before_total(a: DirEntry, b: DirEntry, sort_by: LsSortBy, order: SortOrder)
    ensures
        listed_before(a, b, sort_by, order) || listed_before(b, a, sort_by, order),
{
    text_le_total(lowered(a.name@), lowered(b.name@));
}

proof fn listed_before_transitive(
    a: DirEntry,
    b: DirEntry,
    c: DirEntry,
    sort_by: LsSortBy,
    order: SortOrder,
)
    requires
        listed_before(a, b, sort_by, order),
        listed_before(b, c, sort_by, order),
    ensures
        listed_before(a, c, sort_by, order),
{
    let x = lowered(a.name@);
    let y = lowered(b.name@);
    let z = lowered(c.name@);
    if text_le(x, y) && text_le(y, z) {
        text_le_transitive(x, y, z);
    }
    if text_le(z, y) && text_le(y, x) {
        text_le_transitive(z, y, x);
    }
}

/// The listing order of the entries of `s`, by their positions.
pub open spec fn entry_relation(
    s: Seq<DirEntry>,
    sort_by: LsSortBy,
    order: SortOrder,
) -> spec_fn(int, int) -> bool {
    |i: int, j: int| listed_before(s[i], s[j], sort_by, order)
}

/// `t` is `s` in listing order, entries that tie kept in their original order.
pub open spec fn sorted_listing(
    s: Seq<DirEntry>,
    t: Seq<DirEntry>,
    sort_by: LsSortBy,
    order: SortOrder,
) -> bool {
    arranged(s, t, entry_relation(s, sort_by, order))
}

struct EntryRanking<'a> {
    entries: &'a Vec<DirEntry>,
    names: Vec<Vec<char>>,
    sort_by: LsSortBy,
    order: SortOrder,
}

fn key_of(e: &DirEntry, sort_by: LsSortBy) -> (r: u64)
    ensures
        r as int == sort_key(*e, sort_by),
{
    match sort_by {
        LsSortBy::Name => 0,
        LsSortBy::Size => if e.is_directory {
            0
        } else {
            e.size
        },
        LsSortBy::Kind => if e.is_directory {
            1
        } else {
            0
        },
        LsSortBy::Modified => e.change_time,
        LsSortBy::Created => e.create_time,
    }
}

impl<'a> Ranking for EntryRanking<'a> {
    closed spec fn valid(&self) -> bool {
        &&& self.names@.len() == self.entries@.len()
        &&& forall|i: int|
            0 <= i < self.names@.len() ==> (#[trigger] self.names@[i])@ == lowered(
                self.entries@[i].name@,
            )
    }

    closed spec fn count(&self) -> nat {
        self.entries@.len()
    }

    closed spec fn relation(&self) -> spec_fn(int, int) -> bool {
        entry_relation(self.entries@, self.sort_by, self.order)
    }

    proof fn total(&self, i: int, j: int) {
        listed_before_total(self.entries@[i], self.entries@[j], self.sort_by, self.order);
    }

    proof fn transitive(&self, i: int, j: int, k: int) {
        listed_before_transitive(
            self.entries@[i],
            self.entries@[j],
            self.entries@[k],
            self.sort_by,
            self.order,
        );
    }

    fn not_after(&self, i: usize, j: usize) -> (r: bool) {
        assert(self.names@[i as int]@ == lowered(self.entries@[i as int].name@));
        assert(self.names@[j as int]@ == lowered(self.entries@[j as int].name@));
        match self.sort_by {
            LsSortBy::Name => match self.order {
                SortOrder::Asc => text_not_after(&self.names[i], &self.names[j]),
                SortOrder::Desc => text_not_after(&self.names[j], &self.names[i]),
            },
            _ => {
                let a: u64 = key_of(&self.entries[i], self.sort_by);
                let b: u64 = key_of(&self.entries[j], self.sort_by);
                if a == b {
                    text_not_after(&self.names[i], &self.names[j])
                } else {
                    match self.order {
                        SortOrder::Asc => a < b,
                        SortOrder::Desc => a > b,
                    }
                }
            },
        }
    }
}

/// Sorts a listing by one field, names ascending where that field is equal.
pub fn sort_dir_entries(entries: &mut Vec<DirEntry>, sort_by: LsSortBy, order: SortOrder)
    ensures
        sorted_listing(old(entries)@, final(entries)@, sort_by, order),
{
    let sorted = sorted_copy(entries, sort_by, order);
    *entries = sorted;
}

/// The entries in listing order.
pub fn sorted_copy(entries: &Vec<DirEntry>, sort_by: LsSortBy, order: SortOrder) -> (r: Vec<
    DirEntry,
>)
    ensures
        sorted_listing(entries@, r@, sort_by, order),
{
    let mut names: Vec<Vec<char>> = Vec::new();
    for i in 0..entries.len()
        invariant
            names@.len() == i,
            forall|k: int|
                0 <= k < names@.len() ==> (#[trigger] names@[k])@ == lowered(entries@[k].name@),
    {
        names.push(lower_chars(entries[i].name.as_str()));
    }
    let ranking = EntryRanking { entries, names, sort_by, order };
    let places = stable_order(&ranking, entries.len());
    let mut out: Vec<DirEntry> = Vec::new();
    for i in 0..places.len()
        invariant
            is_stable_order(entries@.len(), entry_relation(entries@, sort_by, order), places@),
            out@ == picked(entries@, places@).take(i as int),
    {
        out.push(entries[places[i]].copy());
        assert(out@ =~= picked(entries@, places@).take(i + 1));
    }
    assert(out@ =~= picked(entries@, places@));
    out
}

/// Whatever entries there are, they can be sorted.
pub proof fn sorted_listing_exists(s: Seq<DirEntry>, sort_by: LsSortBy, order: SortOrder) -> (t:
    Seq<DirEntry>)
    requires
        s.len() <= usize::MAX,
    ensures
        sorted_listing(s, t, sort_by, order),
{
    let le = entry_relation(s, sort_by, order);
    assert forall|i: int, j: int| 0 <= i < s.len() && 0 <= j < s.len() implies #[trigger] le(i, j)
        || le(j, i) by {
        listed_before_total(s[i], s[j], sort_by, order);
    }
    assert forall|i: int, j: int, k: int|
        0 <= i < s.len() && 0 <= j < s.len() && 0 <= k < s.len() && #[trigger] le(i, j)
            && #[trigger] le(j, k) implies le(i, k) by {
        listed_before_transitive(s[i], s[j], s[k], sort_by, order);
    }
    let p = stable_order_exists(s.len(), le);
    let t = picked(s, p);
    assert(is_stable_order(s.len(), le, p) && t == picked(s, p));
    t
}

/// A sorted listing is determined by what it was sorted from.
pub proof fn sorted_listing_unique(
    s: Seq<DirEntry>,
    t: Seq<DirEntry>,
    u: Seq<DirEntry>,
    sort_by: LsSortBy,
    order: SortOrder,
)
    requires
        sorted_listing(s, t, sort_by, order),
        sorted_listing(s, u, sort_by, order),
    ensures
        t == u,
{
    arranged_unique(s, t, u, entry_relation(s, sort_by, order));
}

/// Sorting neither drops, adds nor changes an entry.
pub proof fn sorted_listing_keeps_entries(
    s: Seq<DirEntry>,
    t: Seq<DirEntry>,
    sort_by: LsSortBy,
    order: SortOrder,
)
    requires
        sorted_listing(s, t, sort_by, order),
    ensures
        t.to_multiset() == s.to_multiset(),
        t.len() == s.len(),
{
    arranged_keeps_items(s, t, entry_relation(s, sort_by, order));
}

/// In a sorted listing every entry may be listed before all that follow it.
pub proof fn sorted_listing_in_order(
    s: Seq<DirEntry>,
    t: Seq<DirEntry>,
    sort_by: LsSortBy,
    order: SortOrder,
    i: int,
    j: int,
)
    requires
        sorted_listing(s, t, sort_by, order),
        0 <= i < j < t.len(),
    ensures
        listed_before(t[i], t[j], sort_by, order),
{
    let le = entry_relation(s, sort_by, order);
    let p = choose|p: Seq<usize>| #[trigger]
        is_stable_order(s.len(), le, p) && t == picked(s, p);
    assert(crate::order::comes_first(le, p[i] as int, p[j] as int));
    assert(le(p[i] as int, p[j] as int));
}

/// Sorting a sorted listing again by the same field and direction changes
/// nothing.
pub proof fn sorted_listing_idempotent(
    s: Seq<DirEntry>,
    t: Seq<DirEntry>,
    u: Seq<DirEntry>,
    sort_by: LsSortBy,
    order: SortOrder,
)
    requires
        t.len() <= usize::MAX,
        sorted_listing(s, t, sort_by, order),
        sorted_listing(t, u, sort_by, order),
    ensures
        u == t,
{
    let le = entry_relation(t, sort_by, order);
    let same = Seq::new(t.len(), |k: int| k as usize);
    assert forall|a: int, b: int| 0 <= a < b < same.len() implies crate::order::comes_first(
        le,
        #[trigger] same[a] as int,
        #[trigger] same[b] as int,
    ) by {
        sorted_listing_in_order(s, t, sort_by, order, a, b);
    }
    assert(is_stable_order(t.len(), le, same));
    assert(t =~= picked(t, same));
    arranged_unique(t, t, u, le);
}

/// Sorted by kind, descending, a listing shows every directory before the
/// first file; ascending, after the last.
pub proof fn sorted_by_kind_groups(
    s: Seq<DirEntry>,
    t: Seq<DirEntry>,
    order: SortOrder,
    i: int,
    j: int,
)
    requires
        sorted_listing(s, t, LsSortBy::Kind, order),
        0 <= i < t.len(),
        0 <= j < t.len(),
        t[i].is_directory,
        !t[j].is_directory,
    ensures
        order == SortOrder::Desc ==> i < j,
        order == SortOrder::Asc ==> j < i,
{
    if i < j {
        sorted_listing_in_order(s, t, LsSortBy::Kind, order, i, j);
    } else {
        sorted_listing_in_order(s, t, LsSortBy::Kind, order, j, i);
    }
}

proof fn sorted_listing_strict(
    s: Seq<DirEntry>,
    t: Seq<DirEntry>,
    sort_by: LsSortBy,
    order: SortOrder,
    i: int,
    j: int,
)
    requires
        sorted_listing(s, t, sort_by, order),
        0 <= i < t.len(),
        0 <= j < t.len(),
        !listed_before(t[j], t[i], sort_by, order),
    ensures
        i == j || i < j,
{
    if j < i {
        sorted_listing_in_order(s, t, sort_by, order, j, i);
    }
}

/// Sorted by size, the smaller of two entries stands first where the order is
/// ascending, and the larger where it is descending. Directories count as zero.
pub proof fn sorted_by_size(
    s: Seq<DirEntry>,
    t: Seq<DirEntry>,
    order: SortOrder,
    small: int,
    large: int,
)
    requires
        sorted_listing(s, t, LsSortBy::Size, order),
        0 <= small < t.len(),
        0 <= large < t.len(),
        !t[large].is_directory,
        t[small].is_directory ==> t[large].size > 0,
        !t[small].is_directory ==> t[small].size < t[large].size,
    ensures
        order == SortOrder::Asc ==> small < large,
        order == SortOrder::Desc ==> large < small,
{
    if order == SortOrder::Asc {
        sorted_listing_strict(s, t, LsSortBy::Size, order, small, large);
    } else {
        sorted_listing_strict(s, t, LsSortBy::Size, order, large, small);
    }
}

/// Sorted by the time of the last change, the older of two entries stands first
/// where the order is ascending, and the newer where it is descending.
pub proof fn sorted_by_change_time(
    s: Seq<DirEntry>,
    t: Seq<DirEntry>,
    order: SortOrder,
    older: int,
    newer: int,
)
    requires
        sorted_listing(s, t, LsSortBy::Modified, order),
        0 <= older < t.len(),
        0 <= newer < t.len(),
        t[older].change_time < t[newer].change_time,
    ensures
        order == SortOrder::Asc ==> older < newer,
        order == SortOrder::Desc ==> newer < older,
{
    if order == SortOrder::Asc {
        sorted_listing_strict(s, t, LsSortBy::Modified, order, older, newer);
    } else {
        sorted_listing_strict(s, t, LsSortBy::Modified, order, newer, older);
    }
}

/// Sorted by the time of creation, the older of two entries stands first where
/// the order is ascending, and the newer where it is descending.
pub proof fn sorted_by_create_time(
    s: Seq<DirEntry>,
    t: Seq<DirEntry>,
    order: SortOrder,
    older: int,
    newer: int,
)
    requires
        sorted_listing(s, t, LsSortBy::Created, order),
        0 <= older < t.len(),
        0 <= newer < t.len(),
        t[older].create_time < t[newer].create_time,
    ensures
        order == SortOrder::Asc ==> older < newer,
        order == SortOrder::Desc ==> newer < older,
{
    if order == SortOrder::Asc {
        sorted_listing_strict(s, t, LsSortBy::Created, order, older, newer);
    } else {
        sorted_listing_strict(s, t, LsSortBy::Created, order, newer, older);
    }
}

/// `a` stands before `b` in a dictionary of lower-case words: where the two part,
/// `a` is at its end or goes on with the lesser letter.
pub open spec fn sooner(a: Seq<char>, b: Seq<char>) -> bool {
    exists|k: int| #[trigger]
        part_at(a, b, k) && (k == a.len() || a[k] < b[k])
}

/// Up to `k` the words agree, and `b` goes on.
pub open spec fn part_at(a: Seq<char>, b: Seq<char>, k: int) -> bool {
    0 <= k <= a.len() && k < b.len() && a.take(k) == b.take(k)
}

proof fn sooner_is_strict(a: Seq<char>, b: Seq<char>, k: int)
    requires
        part_at(a, b, k),
        k == a.len() || a[k] < b[k],
    ensures
        !text_le(b, a),
    decreases k,
{
    if k > 0 {
        assert(a.take(k)[0] == b.take(k)[0]);
        assert(a.drop_first().take(k - 1) =~= a.take(k).drop_first());
        assert(b.drop_first().take(k - 1) =~= b.take(k).drop_first());
        sooner_is_strict(a.drop_first(), b.drop_first(), k - 1);
    }
}

/// Sorted by name, entries stand as in a dictionary that does not mind the case
/// of letters, or in the opposite order where it is descending.
pub proof fn sorted_by_name(
    s: Seq<DirEntry>,
    t: Seq<DirEntry>,
    order: SortOrder,
    i: int,
    j: int,
)
    requires
        sorted_listing(s, t, LsSortBy::Name, order),
        0 <= i < t.len(),
        0 <= j < t.len(),
        sooner(lowered(t[i].name@), lowered(t[j].name@)),
    ensures
        order == SortOrder::Asc ==> i < j,
        order == SortOrder::Desc ==> j < i,
{
    let a = lowered(t[i].name@);
    let b = lowered(t[j].name@);
    let k = choose|k: int| #[trigger] part_at(a, b, k) && (k == a.len() || a[k] < b[k]);
    sooner_is_strict(a, b, k);
    text_le_total(a, a);
    if order == SortOrder::Asc {
        sorted_listing_strict(s, t, LsSortBy::Name, order, i, j);
    } else {
        sorted_listing_strict(s, t, LsSortBy::Name, order, j, i);
    }
}

/// Two entries agree in the field that a listing is sorted by.
pub open spec fn same_rank(a: DirEntry, b: DirEntry, sort_by: LsSortBy) -> bool {
    match sort_by {
        LsSortBy::Name => lowered(a.name@) == lowered(b.name@),
        LsSortBy::Size => (a.is_directory || a.size == 0) && (b.is_directory || b.size == 0) || (
        !a.is_directory && !b.is_directory && a.size == b.size),
        LsSortBy::Kind => a.is_directory == b.is_directory,
        LsSortBy::Modified => a.change_time == b.change_time,
        LsSortBy::Created => a.create_time == b.create_time,
    }
}

/// Where entries agree in the field that a listing is sorted by, their names
/// ascend, whichever the order is.
pub proof fn ties_go_by_name(
    s: Seq<DirEntry>,
    t: Seq<DirEntry>,
    sort_by: LsSortBy,
    order: SortOrder,
    i: int,
    j: int,
)
    requires
        sorted_listing(s, t, sort_by, order),
        0 <= i < t.len(),
        0 <= j < t.len(),
        same_rank(t[i], t[j], sort_by),
        sooner(lowered(t[i].name@), lowered(t[j].name@)),
    ensures
        i < j,
{
    let a = lowered(t[i].name@);
    let b = lowered(t[j].name@);
    let k = choose|k: int| #[trigger] part_at(a, b, k) && (k == a.len() || a[k] < b[k]);
    sooner_is_strict(a, b, k);
    text_le_total(a, a);
    sorted_listing_strict(s, t, sort_by, order, i, j);
}

/// Entries that agree in the field and in the name, case aside, keep the order
/// in which the console gave them: each entry of the listing has a place `p` of
/// its own among those given.
pub proof fn ties_keep_their_order(
    s: Seq<DirEntry>,
    t: Seq<DirEntry>,
    sort_by: LsSortBy,
    order: SortOrder,
) -> (p: Seq<usize>)
    requires
        sorted_listing(s, t, sort_by, order),
    ensures
        p.len() == t.len(),
        p.no_duplicates(),
        forall|i: int|
            0 <= i < t.len() ==> 0 <= #[trigger] p[i] < s.len() && t[i] == s[p[i] as int],
        forall|i: int, j: int|
            0 <= i < j < t.len() && same_rank(t[i], t[j], sort_by) && lowered(t[i].name@)
                == lowered(t[j].name@) ==> #[trigger] p[i] < #[trigger] p[j],
{
    let le = entry_relation(s, sort_by, order);
    let p = choose|p: Seq<usize>| #[trigger]
        is_stable_order(s.len(), le, p) && t == picked(s, p);
    if s.len() > 0 {
        crate::order::stable_order_lists_all(s.len(), le, p, 0);
    }
    assert forall|i: int, j: int|
        0 <= i < j < t.len() && same_rank(t[i], t[j], sort_by) && lowered(t[i].name@) == lowered(
            t[j].name@,
        ) implies #[trigger] p[i] < #[trigger] p[j] by {
        assert(crate::order::comes_first(le, p[i] as int, p[j] as int));
        text_le_total(lowered(t[i].name@), lowered(t[i].name@));
        assert(le(p[j] as int, p[i] as int));
    }
    p
}

} // verus!
