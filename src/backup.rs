use vstd::prelude::*;

verus! {

/// How many backups are retained after pruning.
pub const MAX_BACKUPS: usize = 10;

/// A wall-clock instant at second resolution.
#[derive(Debug, Clone, Copy, PartialEq, Eq, Structural)]
pub struct Timestamp {
    pub year: u16,
    pub month: u8,
    pub day: u8,
    pub hour: u8,
    pub minute: u8,
    pub second: u8,
}

impl Timestamp {
    pub open spec fn wf(&self) -> bool {
        self.year <= 9999 && 1 <= self.month <= 12 && 1 <= self.day <= 31 && self.hour < 24
            && self.minute < 60 && self.second <= 60
    }
}

/// One file found in the backup directory, with its creation time in
/// nanoseconds since the epoch when the file system could report it.
#[derive(Debug, Clone)]
pub struct BackupEntry {
    pub name: String,
    pub created: Option<u128>,
}

pub open spec fn digit_char(d: int) -> char {
    (48 + d) as char
}

pub open spec fn two_digits(v: int) -> Seq<char> {
    seq![digit_char(v / 10), digit_char(v % 10)]
}

pub open spec fn four_digits(v: int) -> Seq<char> {
    seq![digit_char(v / 1000), digit_char((v / 100) % 10), digit_char((v / 10) % 10), digit_char(v % 10)]
}

/// `backup_YYYYMMDD_HHMMSS.db`, every field zero-padded to its width.
pub open spec fn backup_name(t: Timestamp) -> Seq<char> {
    seq!['b', 'a', 'c', 'k', 'u', 'p', '_'] + four_digits(t.year as int) + two_digits(t.month as int)
        + two_digits(t.day as int) + seq!['_'] + two_digits(t.hour as int) + two_digits(
        t.minute as int,
    ) + two_digits(t.second as int) + seq!['.', 'd', 'b']
}

/// A file name with the store's extension: `.db` after a non-empty stem.
pub open spec fn is_store_name(name: Seq<char>) -> bool {
    name.len() > 3 && name.subrange(name.len() - 3, name.len() as int) == seq!['.', 'd', 'b']
}

/// A file that pruning may consider: a store copy whose creation time is known.
pub open spec fn prunable(e: BackupEntry) -> bool {
    is_store_name(e.name@) && e.created is Some
}

/// Number of prunable entries among the first `n`.
pub open spec fn count_prunable(s: Seq<BackupEntry>, n: int) -> nat
    decreases n,
{
    if n <= 0 {
        0
    } else {
        count_prunable(s, n - 1) + if prunable(s[n - 1]) {
            1nat
        } else {
            0nat
        }
    }
}

pub open spec fn created_at(e: BackupEntry) -> u128 {
    e.created->Some_0
}

fn created_or_zero(e: &BackupEntry) -> (r: u128)
    ensures
        e.created is Some ==> r == created_at(*e),
{
    match e.created {
        Some(x) => x,
        None => 0,
    }
}

fn digit_str(d: u8) -> (r: &'static str)
    requires
        d < 10,
    ensures
        r@ == seq![digit_char(d as int)],
{
    if d == 0 {
        proof { reveal_strlit("0"); }
        "0"
    } else if d == 1 {
        proof { reveal_strlit("1"); }
        "1"
    } else if d == 2 {
        proof { reveal_strlit("2"); }
        "2"
    } else if d == 3 {
        proof { reveal_strlit("3"); }
        "3"
    } else if d == 4 {
        proof { reveal_strlit("4"); }
        "4"
    } else if d == 5 {
        proof { reveal_strlit("5"); }
        "5"
    } else if d == 6 {
        proof { reveal_strlit("6"); }
        "6"
    } else if d == 7 {
        proof { reveal_strlit("7"); }
        "7"
    } else if d == 8 {
        proof { reveal_strlit("8"); }
        "8"
    } else {
        proof { reveal_strlit("9"); }
        "9"
    }
}

fn push_two_digits(s: &mut String, v: u8)
    requires
        v < 100,
    ensures
        final(s)@ == old(s)@ + two_digits(v as int),
{
    s.append(digit_str(v / 10));
    s.append(digit_str(v % 10));
}

/// File name for a backup taken at `t`.
pub fn backup_file_name(t: &Timestamp) -> (r: String)
    requires
        t.wf(),
    ensures
        r@ == backup_name(*t),
{
    proof { reveal_strlit("backup_"); reveal_strlit("_"); reveal_strlit(".db"); }
    let mut s = String::from_str("backup_");
    s.append(digit_str((t.year / 1000) as u8));
    s.append(digit_str(((t.year / 100) % 10) as u8));
    s.append(digit_str(((t.year / 10) % 10) as u8));
    s.append(digit_str((t.year % 10) as u8));
    push_two_digits(&mut s, t.month);
    push_two_digits(&mut s, t.day);
    s.append("_");
    push_two_digits(&mut s, t.hour);
    push_two_digits(&mut s, t.minute);
    push_two_digits(&mut s, t.second);
    s.append(".db");
    assert(s@ =~= backup_name(*t));
    s
}

/// Whether a file name carries the store's extension.
pub fn has_store_extension(name: &String) -> (r: bool)
    ensures
        r == is_store_name(name@),
{
    let text = name.as_str();
    let n = text.unicode_len();
    if n <= 3 {
        return false;
    }
    let a = text.get_char(n - 3);
    let b = text.get_char(n - 2);
    let c = text.get_char(n - 1);
    let r = a == '.' && b == 'd' && c == 'b';
    assert(r ==> name@.subrange(n - 3, n as int) =~= seq!['.', 'd', 'b']);
    assert(name@.subrange(n - 3, n as int) == seq!['.', 'd', 'b'] ==> {
        &&& name@.subrange(n - 3, n as int)[0] == '.'
        &&& name@.subrange(n - 3, n as int)[1] == 'd'
        &&& name@.subrange(n - 3, n as int)[2] == 'b'
    });
    r
}

pub open spec fn newest_first(entries: Seq<BackupEntry>, order: Seq<usize>) -> bool {
    forall|a: int, b: int|
        0 <= a < b < order.len() ==> created_at(entries[order[a] as int]) >= created_at(
            entries[order[b] as int],
        )
}

pub open spec fn all_prunable_below(entries: Seq<BackupEntry>, order: Seq<usize>, bound: int) -> bool {
    forall|k: int| 0 <= k < order.len() ==> order[k] < bound && prunable(entries[order[k] as int])
}

/// Puts entry `i` into an index list kept newest first, after every entry
/// at least as new.
fn insert_newest_first(order: &mut Vec<usize>, entries: &Vec<BackupEntry>, i: usize)
    requires
        i < entries@.len(),
        prunable(entries@[i as int]),
        old(order)@.no_duplicates(),
        all_prunable_below(entries@, old(order)@, i as int),
        newest_first(entries@, old(order)@),
    ensures
        final(order)@.no_duplicates(),
        final(order)@.len() == old(order)@.len() + 1,
        all_prunable_below(entries@, final(order)@, i + 1),
        newest_first(entries@, final(order)@),
        forall|x: usize| #[trigger] final(order)@.contains(x) <==> old(order)@.contains(x) || x == i,
{
    let c = created_or_zero(&entries[i]);
    let mut pos: usize = 0;
    while pos < order.len() && created_or_zero(&entries[order[pos]]) >= c
        invariant
            pos <= order@.len(),
            i < entries@.len(),
            c == created_at(entries@[i as int]),
            all_prunable_below(entries@, order@, i as int),
            forall|k: int| 0 <= k < pos ==> created_at(entries@[order@[k] as int]) >= c,
        decreases order@.len() - pos,
    {
        pos += 1;
    }
    let ghost before = order@;
    order.insert(pos, i);
    proof {
        assert(order@ == before.subrange(0, pos as int).push(i).add(before.subrange(pos as int, before.len() as int)));
        assert forall|x: usize| #[trigger] order@.contains(x) <==> before.contains(x) || x == i by {
            if before.contains(x) {
                let w = choose|w: int| 0 <= w < before.len() && before[w] == x;
                if w < pos {
                    assert(order@[w] == x);
                } else {
                    assert(order@[w + 1] == x);
                }
            }
            if x == i {
                assert(order@[pos as int] == x);
            }
            if order@.contains(x) {
                let w = choose|w: int| 0 <= w < order@.len() && order@[w] == x;
                if w < pos {
                    assert(before[w] == x);
                } else if w > pos {
                    assert(before[w - 1] == x);
                }
            }
        }
        assert forall|a: int, b: int| 0 <= a < b < order@.len() implies created_at(
            entries@[order@[a] as int],
        ) >= created_at(entries@[order@[b] as int]) by {
            if a == pos && pos < before.len() {
                assert(created_at(entries@[before[pos as int] as int]) < c);
                assert(order@[b] == before[b - 1]);
            }
        }
        assert forall|a: int, b: int| 0 <= a < order@.len() && 0 <= b < order@.len() && a != b
            implies order@[a] != order@[b] by {
            if a != pos && b != pos {
                let a0 = if a < pos { a } else { a - 1 };
                let b0 = if b < pos { b } else { b - 1 };
                assert(order@[a] == before[a0] && order@[b] == before[b0]);
            }
        }
    }
}

/// Indices of the backups to delete: every store copy with a known creation
/// time beyond the `MAX_BACKUPS` newest. Files of another extension or without
/// a creation time are never chosen.
pub fn backups_to_prune(entries: &Vec<BackupEntry>) -> (r: Vec<usize>)
    ensures
        r@.no_duplicates(),
        forall|k: int| 0 <= k < r@.len() ==> r@[k] < entries@.len() && prunable(entries@[r@[k] as int]),
        count_prunable(entries@, entries@.len() as int) == r@.len() + if count_prunable(
            entries@,
            entries@.len() as int,
        ) < MAX_BACKUPS {
            count_prunable(entries@, entries@.len() as int)
        } else {
            MAX_BACKUPS as nat
        },
        forall|i: int, k: int|
            0 <= i < entries@.len() && prunable(entries@[i]) && !r@.contains(i as usize) && 0 <= k
                < r@.len() ==> created_at(entries@[i]) >= created_at(entries@[r@[k] as int]),
{
    // newest first; equal creation times keep the order in which they were found
    let mut order: Vec<usize> = Vec::new();
    let mut i: usize = 0;
    while i < entries.len()
        invariant
            i <= entries@.len(),
            order@.no_duplicates(),
            order@.len() == count_prunable(entries@, i as int),
            all_prunable_below(entries@, order@, i as int),
            forall|j: int| 0 <= j < i && prunable(entries@[j]) ==> order@.contains(j as usize),
            newest_first(entries@, order@),
        decreases entries@.len() - i,
    {
        if has_store_extension(&entries[i].name) && entries[i].created.is_some() {
            proof {
                assert(!order@.contains(i)) by {
                    if order@.contains(i) {
                        let w = choose|w: int| 0 <= w < order@.len() && order@[w] == i;
                    }
                }
            }
            insert_newest_first(&mut order, entries, i);
        }
        i += 1;
    }
    let mut r: Vec<usize> = Vec::new();
    if order.len() > MAX_BACKUPS {
        let mut k: usize = MAX_BACKUPS;
        while k < order.len()
            invariant
                MAX_BACKUPS <= k <= order@.len(),
                r@ == order@.subrange(MAX_BACKUPS as int, k as int),
            decreases order@.len() - k,
        {
            r.push(order[k]);
            k += 1;
        }
    }
    proof {
        let m = MAX_BACKUPS as int;
        if order@.len() <= MAX_BACKUPS {
            assert(r@.len() == 0);
        } else {
            assert(r@ == order@.subrange(m, order@.len() as int));
            assert forall|a: int, b: int| 0 <= a < r@.len() && 0 <= b < r@.len() && a != b implies r@[a]
                != r@[b] by {
                assert(r@[a] == order@[a + m] && r@[b] == order@[b + m]);
            }
            assert forall|j: int, k2: int|
                0 <= j < entries@.len() && prunable(entries@[j]) && !r@.contains(j as usize) && 0 <= k2
                    < r@.len() implies created_at(entries@[j]) >= created_at(entries@[r@[k2] as int]) by {
                assert(order@.contains(j as usize));
                let w = choose|w: int| 0 <= w < order@.len() && order@[w] == j as usize;
                if w >= m {
                    assert(r@[w - m] == j as usize);
                }
                assert(r@[k2] == order@[k2 + m]);
            }
            assert forall|k2: int| 0 <= k2 < r@.len() implies r@[k2] < entries@.len() && prunable(
                entries@[r@[k2] as int],
            ) by {
                assert(r@[k2] == order@[k2 + m]);
            }
        }
    }
    r
}

/// Owner of the directory that backups are written to and pruned in.
pub struct BackupManager {
    backup_dir: String,
}

impl BackupManager {
    pub closed spec fn dir_view(&self) -> Seq<char> {
        self.backup_dir@
    }

    /// A manager for the given backup directory, which the caller has created.
    pub fn new(backup_dir: String) -> (r: Self)
        ensures
            r.dir_view() == backup_dir@,
    {
        BackupManager { backup_dir }
    }

    pub fn get_backup_dir(&self) -> (r: &String)
        ensures
            r@ == self.dir_view(),
    {
        &self.backup_dir
    }
}

} // verus!
