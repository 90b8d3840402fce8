use vstd::prelude::*;
use vstd::utf8::*;

verus! {

/// Declaration of the focus session table.
pub const FOCUS_SESSIONS_TABLE: &'static str = "CREATE TABLE IF NOT EXISTS focus_sessions (id INTEGER PRIMARY KEY AUTOINCREMENT, start_time DATETIME NOT NULL, end_time DATETIME, duration INTEGER, created_at DATETIME DEFAULT CURRENT_TIMESTAMP)";

/// Declaration of the diary table in its current shape.
pub const DIARY_ENTRIES_TABLE: &'static str = "CREATE TABLE IF NOT EXISTS diary_entries (id INTEGER PRIMARY KEY AUTOINCREMENT, date DATE NOT NULL, title TEXT, content TEXT NOT NULL, mood INTEGER, images TEXT, created_at DATETIME DEFAULT CURRENT_TIMESTAMP, updated_at DATETIME DEFAULT CURRENT_TIMESTAMP)";

/// Declaration of the todo table.
pub const TODOS_TABLE: &'static str = "CREATE TABLE IF NOT EXISTS todos (id INTEGER PRIMARY KEY AUTOINCREMENT, title TEXT NOT NULL, description TEXT, completed BOOLEAN DEFAULT FALSE, priority INTEGER DEFAULT 0, due_date DATETIME, created_at DATETIME DEFAULT CURRENT_TIMESTAMP, updated_at DATETIME DEFAULT CURRENT_TIMESTAMP)";

/// Declaration of the alarm table.
pub const ALARMS_TABLE: &'static str = "CREATE TABLE IF NOT EXISTS alarms (id INTEGER PRIMARY KEY AUTOINCREMENT, time TIME NOT NULL, days TEXT, enabled BOOLEAN DEFAULT TRUE, label TEXT, sound_path TEXT, created_at DATETIME DEFAULT CURRENT_TIMESTAMP)";

/// Reads the live definition of the diary table.
pub const DIARY_DEFINITION_QUERY: &'static str = "SELECT sql FROM sqlite_master WHERE type='table' AND name='diary_entries'";

/// The part of a superseded diary definition that marks it: a uniqueness
/// constraint declared on the date column itself.
pub const LEGACY_DIARY_MARKER: &'static str = "date DATE NOT NULL UNIQUE";

/// Shadow table for rebuilding the diary table in its current shape.
pub const DIARY_SHADOW_TABLE: &'static str = "CREATE TABLE IF NOT EXISTS diary_entries_new (id INTEGER PRIMARY KEY AUTOINCREMENT, date DATE NOT NULL, title TEXT, content TEXT NOT NULL, mood INTEGER, images TEXT, created_at DATETIME DEFAULT CURRENT_TIMESTAMP, updated_at DATETIME DEFAULT CURRENT_TIMESTAMP)";

/// Copies every diary row verbatim into the shadow table.
pub const DIARY_COPY_ROWS: &'static str = "INSERT INTO diary_entries_new (id, date, title, content, mood, images, created_at, updated_at) SELECT id, date, title, content, mood, images, created_at, updated_at FROM diary_entries";

/// Drops the superseded diary table.
pub const DIARY_DROP_OLD: &'static str = "DROP TABLE diary_entries";

/// Moves the shadow table into place.
pub const DIARY_RENAME_SHADOW: &'static str = "ALTER TABLE diary_entries_new RENAME TO diary_entries";

/// Reads what deduplication needs of each diary row.
pub const DIARY_ROWS_QUERY: &'static str = "SELECT id, date, updated_at FROM diary_entries";

/// Deletes one diary row by id.
pub const DIARY_DELETE_ROW: &'static str = "DELETE FROM diary_entries WHERE id = ?";

/// Installs the uniqueness constraint on the diary date column.
pub const DIARY_DATE_INDEX: &'static str = "CREATE UNIQUE INDEX IF NOT EXISTS idx_diary_entries_date ON diary_entries(date)";

/// `needle` occurs in `hay` as a contiguous run.
pub open spec fn is_substring(needle: Seq<char>, hay: Seq<char>) -> bool {
    exists|i: int| 0 <= i && i + needle.len() <= hay.len() && #[trigger] hay.subrange(i, i + needle.len()) == needle
}

/// Relies on `str::contains` with a `&str` pattern: whether the pattern occurs
/// in the text.
#[verifier::external_body]
fn text_contains(hay: &str, needle: &str) -> (r: bool)
    ensures
        r == is_substring(needle@, hay@),
{
    hay.contains(needle)
}

/// The diary table's live definition has the superseded shape.
pub open spec fn is_legacy_diary(sql: Seq<char>) -> bool {
    is_substring(LEGACY_DIARY_MARKER@, sql)
}

/// Whether the diary table, with the given live definition (`None` when the
/// table is missing), must be rebuilt in its current shape.
pub fn needs_diary_upgrade(live_definition: &Option<String>) -> (r: bool)
    ensures
        r == (live_definition matches Some(s) && is_legacy_diary(s@)),
{
    match live_definition {
        Some(s) => text_contains(s.as_str(), LEGACY_DIARY_MARKER),
        None => false,
    }
}

/// Statements that declare every table in its current shape; each is a no-op
/// for a table that exists.
pub fn table_declarations() -> (r: Vec<&'static str>)
    ensures
        r@ == seq![FOCUS_SESSIONS_TABLE, DIARY_ENTRIES_TABLE, TODOS_TABLE, ALARMS_TABLE],
{
    let mut r: Vec<&'static str> = Vec::new();
    r.push(FOCUS_SESSIONS_TABLE);
    r.push(DIARY_ENTRIES_TABLE);
    r.push(TODOS_TABLE);
    r.push(ALARMS_TABLE);
    r
}

/// The copy-then-swap rebuild of the diary table: shadow table, copy of every
/// row, drop of the old table, rename of the shadow.
pub fn diary_rebuild_statements() -> (r: Vec<&'static str>)
    ensures
        r@ == seq![DIARY_SHADOW_TABLE, DIARY_COPY_ROWS, DIARY_DROP_OLD, DIARY_RENAME_SHADOW],
{
    let mut r: Vec<&'static str> = Vec::new();
    r.push(DIARY_SHADOW_TABLE);
    r.push(DIARY_COPY_ROWS);
    r.push(DIARY_DROP_OLD);
    r.push(DIARY_RENAME_SHADOW);
    r
}

/// Statements that bring the tables to their current shape, given the diary
/// table's live definition: every declaration, then the rebuild of the diary
/// table when its definition has the superseded shape.
pub fn migration_statements(live_definition: &Option<String>) -> (r: Vec<&'static str>)
    ensures
        r@ == if live_definition matches Some(s) && is_legacy_diary(s@) {
            seq![FOCUS_SESSIONS_TABLE, DIARY_ENTRIES_TABLE, TODOS_TABLE, ALARMS_TABLE]
                + seq![DIARY_SHADOW_TABLE, DIARY_COPY_ROWS, DIARY_DROP_OLD, DIARY_RENAME_SHADOW]
        } else {
            seq![FOCUS_SESSIONS_TABLE, DIARY_ENTRIES_TABLE, TODOS_TABLE, ALARMS_TABLE]
        },
{
    let mut r = table_declarations();
    if needs_diary_upgrade(live_definition) {
        let mut rebuild = diary_rebuild_statements();
        r.append(&mut rebuild);
    }
    r
}

/// What deduplication reads of a diary row. `date` and `updated_at` are the
/// stored texts.
#[derive(Debug, Clone)]
pub struct DiaryRow {
    pub id: i64,
    pub date: String,
    pub updated_at: String,
}

/// `a` sorts strictly before `b` byte by byte, a proper prefix first.
pub open spec fn bytes_lt(a: Seq<u8>, b: Seq<u8>) -> bool {
    exists|k: int|
        0 <= k <= a.len() && k <= b.len() && #[trigger] a.subrange(0, k) == b.subrange(0, k) && ((k
            == a.len() && k < b.len()) || (k < a.len() && k < b.len() && a[k] < b[k]))
}

/// Stored texts compare by their UTF-8 bytes.
pub open spec fn text_lt(a: Seq<char>, b: Seq<char>) -> bool {
    bytes_lt(encode_utf8(a), encode_utf8(b))
}

/// `a` replaces `b` for their shared date: it was updated later, or at the
/// same instant with a higher id.
pub open spec fn supersedes(a: DiaryRow, b: DiaryRow) -> bool {
    a.date@ == b.date@ && (text_lt(b.updated_at@, a.updated_at@) || (a.updated_at@ == b.updated_at@
        && a.id > b.id))
}

/// No row of `rows` supersedes `r`.
pub open spec fn survives(rows: Seq<DiaryRow>, r: DiaryRow) -> bool {
    forall|k: int| 0 <= k < rows.len() ==> !supersedes(#[trigger] rows[k], r)
}

/// Ids, in table order, of the rows among the first `n` that deduplication deletes.
pub open spec fn deleted_ids(rows: Seq<DiaryRow>, n: int) -> Seq<i64>
    decreases n,
{
    if n <= 0 {
        seq![]
    } else if survives(rows, rows[n - 1]) {
        deleted_ids(rows, n - 1)
    } else {
        deleted_ids(rows, n - 1).push(rows[n - 1].id)
    }
}

/// The rows that deduplication keeps, in table order.
pub open spec fn kept_rows(rows: Seq<DiaryRow>) -> Seq<DiaryRow> {
    rows.filter(|r: DiaryRow| survives(rows, r))
}

fn bytes_less(a: &[u8], b: &[u8]) -> (r: bool)
    ensures
        r == bytes_lt(a@, b@),
{
    let mut k: usize = 0;
    while k < a.len() && k < b.len() && a[k] == b[k]
        invariant
            k <= a@.len(),
            k <= b@.len(),
            a@.subrange(0, k as int) == b@.subrange(0, k as int),
        decreases a@.len() - k,
    {
        proof {
            assert(a@.subrange(0, k + 1) =~= a@.subrange(0, k as int).push(a@[k as int]));
            assert(b@.subrange(0, k + 1) =~= b@.subrange(0, k as int).push(b@[k as int]));
        }
        k += 1;
    }
    let r = (k == a.len() && k < b.len()) || (k < a.len() && k < b.len() && a[k] < b[k]);
    proof {
        if !r {
            assert forall|w: int|
                0 <= w <= a@.len() && w <= b@.len() && #[trigger] a@.subrange(0, w) == b@.subrange(0, w)
                    implies !((w == a@.len() && w < b@.len()) || (w < a@.len() && w < b@.len() && a@[w]
                < b@[w])) by {
                if w > k {
                    assert(a@.subrange(0, w)[k as int] == b@.subrange(0, w)[k as int]);
                } else if w < k {
                    assert(a@.subrange(0, k as int)[w] == b@.subrange(0, k as int)[w]);
                }
            }
        }
    }
    r
}

/// Whether row `a` replaces row `b` (see `supersedes`).
fn row_supersedes(a: &DiaryRow, b: &DiaryRow) -> (r: bool)
    ensures
        r == supersedes(*a, *b),
{
    if a.date != b.date {
        return false;
    }
    if bytes_less(b.updated_at.as_str().as_bytes(), a.updated_at.as_str().as_bytes()) {
        return true;
    }
    a.updated_at == b.updated_at && a.id > b.id
}

/// Ids of the diary rows to delete so that one row per date remains: the one
/// updated last, and of those updated at the same instant the one with the
/// highest id.
pub fn diary_rows_to_delete(rows: &Vec<DiaryRow>) -> (r: Vec<i64>)
    ensures
        r@ == deleted_ids(rows@, rows@.len() as int),
{
    let mut r: Vec<i64> = Vec::new();
    let mut i: usize = 0;
    while i < rows.len()
        invariant
            i <= rows@.len(),
            r@ == deleted_ids(rows@, i as int),
        decreases rows@.len() - i,
    {
        let mut j: usize = 0;
        let mut beaten = false;
        while j < rows.len()
            invariant
                j <= rows@.len(),
                i < rows@.len(),
                beaten == exists|k: int| 0 <= k < j && supersedes(#[trigger] rows@[k], rows@[i as int]),
            decreases rows@.len() - j,
        {
            if row_supersedes(&rows[j], &rows[i]) {
                beaten = true;
            }
            j += 1;
        }
        if beaten {
            r.push(rows[i].id);
        }
        i += 1;
    }
    r
}

proof fn lemma_bytes_lt_irreflexive(a: Seq<u8>)
    ensures
        !bytes_lt(a, a),
{
}

proof fn lemma_bytes_lt_transitive(a: Seq<u8>, b: Seq<u8>, c: Seq<u8>)
    requires
        bytes_lt(a, b),
        bytes_lt(b, c),
    ensures
        bytes_lt(a, c),
{
    let k1 = choose|k: int|
        0 <= k <= a.len() && k <= b.len() && #[trigger] a.subrange(0, k) == b.subrange(0, k) && ((k
            == a.len() && k < b.len()) || (k < a.len() && k < b.len() && a[k] < b[k]));
    let k2 = choose|k: int|
        0 <= k <= b.len() && k <= c.len() && #[trigger] b.subrange(0, k) == c.subrange(0, k) && ((k
            == b.len() && k < c.len()) || (k < b.len() && k < c.len() && b[k] < c[k]));
    let m = if k1 < k2 { k1 } else { k2 };
    assert(a.subrange(0, m) =~= a.subrange(0, k1).subrange(0, m));
    assert(b.subrange(0, m) =~= b.subrange(0, k1).subrange(0, m));
    assert(b.subrange(0, m) =~= b.subrange(0, k2).subrange(0, m));
    assert(c.subrange(0, m) =~= c.subrange(0, k2).subrange(0, m));
    assert(a.subrange(0, m) == c.subrange(0, m));
    if k1 < k2 {
        assert(b.subrange(0, k2)[k1] == c.subrange(0, k2)[k1]);
    } else if k2 < k1 {
        assert(a.subrange(0, k1)[k2] == b.subrange(0, k1)[k2]);
    }
}

proof fn lemma_bytes_lt_total(a: Seq<u8>, b: Seq<u8>, k: int)
    requires
        a != b,
        0 <= k <= a.len(),
        k <= b.len(),
        a.subrange(0, k) == b.subrange(0, k),
    ensures
        bytes_lt(a, b) || bytes_lt(b, a),
    decreases a.len() - k,
{
    if k == a.len() && k == b.len() {
        assert(a =~= a.subrange(0, k));
        assert(b =~= b.subrange(0, k));
    } else if k == a.len() {
        assert(a.subrange(0, k) == b.subrange(0, k));
    } else if k == b.len() {
        assert(b.subrange(0, k) == a.subrange(0, k));
    } else if a[k] != b[k] {
        assert(a.subrange(0, k) == b.subrange(0, k));
        assert(b.subrange(0, k) == a.subrange(0, k));
    } else {
        assert(a.subrange(0, k + 1) =~= a.subrange(0, k).push(a[k]));
        assert(b.subrange(0, k + 1) =~= b.subrange(0, k).push(b[k]));
        lemma_bytes_lt_total(a, b, k + 1);
    }
}

proof fn lemma_supersedes_transitive(a: DiaryRow, b: DiaryRow, c: DiaryRow)
    requires
        supersedes(a, b),
        supersedes(b, c),
    ensures
        supersedes(a, c),
{
    let (ea, eb, ec) = (encode_utf8(a.updated_at@), encode_utf8(b.updated_at@), encode_utf8(c.updated_at@));
    if bytes_lt(eb, ea) && bytes_lt(ec, eb) {
        lemma_bytes_lt_transitive(ec, eb, ea);
    }
}

proof fn lemma_supersedes_irreflexive(a: DiaryRow)
    ensures
        !supersedes(a, a),
{
    lemma_bytes_lt_irreflexive(encode_utf8(a.updated_at@));
}

/// Of two rows with one date and different ids, one supersedes the other.
proof fn lemma_supersedes_total(a: DiaryRow, b: DiaryRow)
    requires
        a.date@ == b.date@,
        a.id != b.id,
    ensures
        supersedes(a, b) || supersedes(b, a),
{
    broadcast use encode_utf8_decode_utf8;

    let (ea, eb) = (encode_utf8(a.updated_at@), encode_utf8(b.updated_at@));
    if a.updated_at@ != b.updated_at@ {
        assert(ea != eb) by {
            if ea == eb {
                assert(decode_utf8(ea) == decode_utf8(eb));
            }
        }
        assert(ea.subrange(0, 0) =~= eb.subrange(0, 0));
        lemma_bytes_lt_total(ea, eb, 0);
    }
}

/// Among the first `n` rows none supersedes some row `j` that has the date
/// of row `i` and is row `i` or supersedes it.
proof fn lemma_latest_exists(rows: Seq<DiaryRow>, i: int, n: int) -> (j: int)
    requires
        0 <= i < rows.len(),
        0 <= n <= rows.len(),
    ensures
        0 <= j < rows.len(),
        rows[j].date@ == rows[i].date@,
        forall|k: int| 0 <= k < n ==> !supersedes(#[trigger] rows[k], rows[j]),
    decreases n,
{
    if n == 0 {
        i
    } else {
        let j0 = lemma_latest_exists(rows, i, n - 1);
        if supersedes(rows[n - 1], rows[j0]) {
            assert forall|k: int| 0 <= k < n implies !supersedes(#[trigger] rows[k], rows[n - 1]) by {
                if k == n - 1 {
                    lemma_supersedes_irreflexive(rows[k]);
                } else if supersedes(rows[k], rows[n - 1]) {
                    lemma_supersedes_transitive(rows[k], rows[n - 1], rows[j0]);
                }
            }
            n - 1
        } else {
            j0
        }
    }
}

/// Deduplication leaves exactly one row for every date that had any: no two
/// kept rows share a date, some kept row has the date of each row, and no row
/// of that date was updated after it.
pub proof fn lemma_dedup_one_per_date(rows: Seq<DiaryRow>, i: int)
    requires
        0 <= i < rows.len(),
        forall|a: int, b: int| 0 <= a < b < rows.len() ==> rows[a].id != rows[b].id,
    ensures
        exists|j: int|
            0 <= j < rows.len() && #[trigger] rows[j].date@ == rows[i].date@ && survives(rows, rows[j]),
        forall|a: int, b: int|
            0 <= a < rows.len() && 0 <= b < rows.len() && survives(rows, rows[a]) && survives(rows, rows[b])
                && rows[a].date@ == rows[b].date@ ==> a == b,
        forall|j: int, k: int|
            0 <= j < rows.len() && 0 <= k < rows.len() && survives(rows, rows[j]) && rows[k].date@
                == rows[j].date@ ==> !text_lt(rows[j].updated_at@, rows[k].updated_at@),
{
    let j = lemma_latest_exists(rows, i, rows.len() as int);
    assert(rows[j].date@ == rows[i].date@ && survives(rows, rows[j]));
    assert forall|a: int, b: int|
        0 <= a < rows.len() && 0 <= b < rows.len() && survives(rows, rows[a]) && survives(rows, rows[b])
            && rows[a].date@ == rows[b].date@ implies a == b by {
        if a != b {
            if a < b {
                lemma_supersedes_total(rows[a], rows[b]);
            } else {
                lemma_supersedes_total(rows[a], rows[b]);
            }
        }
    }
    assert forall|j2: int, k: int|
        0 <= j2 < rows.len() && 0 <= k < rows.len() && survives(rows, rows[j2]) && rows[k].date@
            == rows[j2].date@ implies !text_lt(rows[j2].updated_at@, rows[k].updated_at@) by {
        assert(!supersedes(rows[k], rows[j2]));
    }
}

proof fn lemma_deleted_ids_none(rows: Seq<DiaryRow>, n: int)
    requires
        0 <= n <= rows.len(),
        forall|k: int| 0 <= k < n ==> survives(rows, #[trigger] rows[k]),
    ensures
        deleted_ids(rows, n) == Seq::<i64>::empty(),
    decreases n,
{
    if n > 0 {
        lemma_deleted_ids_none(rows, n - 1);
    }
}

/// Deduplicating again changes nothing: the kept rows all survive a second
/// pass, which deletes no row and keeps them all.
pub proof fn lemma_dedup_idempotent(rows: Seq<DiaryRow>)
    ensures
        deleted_ids(kept_rows(rows), kept_rows(rows).len() as int) == Seq::<i64>::empty(),
        kept_rows(kept_rows(rows)) == kept_rows(rows),
{
    let pred = |r: DiaryRow| survives(rows, r);
    let kept = kept_rows(rows);
    assert forall|x: int| 0 <= x < kept.len() implies survives(kept, #[trigger] kept[x]) by {
        rows.lemma_filter_pred(pred, x);
        assert(pred(kept[x]));
        assert forall|k: int| 0 <= k < kept.len() implies !supersedes(#[trigger] kept[k], kept[x]) by {
            assert(kept.contains(kept[k]));
            rows.lemma_filter_contains_rev(pred, kept[k]);
            let w = choose|w: int| 0 <= w < rows.len() && rows[w] == kept[k];
            assert(!supersedes(rows[w], kept[x]));
        }
    }
    lemma_deleted_ids_none(kept, kept.len() as int);
    let pred2 = |r: DiaryRow| survives(kept, r);
    assert forall|x: int| 0 <= x < kept.len() implies pred2(#[trigger] kept[x]) by {}
    lemma_filter_all_pass(kept, pred2);
}

proof fn lemma_filter_all_pass(s: Seq<DiaryRow>, p: spec_fn(DiaryRow) -> bool)
    requires
        forall|x: int| 0 <= x < s.len() ==> p(#[trigger] s[x]),
    ensures
        s.filter(p) == s,
    decreases s.len(),
{
    reveal(Seq::filter);
    if s.len() > 0 {
        lemma_filter_all_pass(s.drop_last(), p);
        assert(s.drop_last().push(s.last()) =~= s);
    } else {
        assert(s.filter(p) =~= s);
    }
}

/// A text without the letter `Q` cannot hold the legacy marker, whose
/// `UNIQUE` has one.
proof fn lemma_no_q_not_legacy(sql: Seq<char>)
    requires
        forall|i: int| 0 <= i < sql.len() ==> sql[i] != 'Q',
    ensures
        !is_legacy_diary(sql),
{
    reveal_strlit("date DATE NOT NULL UNIQUE");
    let m = LEGACY_DIARY_MARKER@;
    assert(m[22] == 'Q');
    if is_legacy_diary(sql) {
        let i = choose|i: int| 0 <= i && i + m.len() <= sql.len() && #[trigger] sql.subrange(i, i + m.len()) == m;
        assert(sql.subrange(i, i + m.len())[22] == sql[i + 22]);
    }
}

/// Running migration a second time changes nothing: the diary shapes that
/// migration creates, directly or through the rebuild, are not the superseded
/// shape, so no rebuild happens again and only declarations of tables that
/// exist are repeated; and deduplication of the kept rows deletes nothing and
/// keeps them all.
pub proof fn lemma_migration_idempotent(rows: Seq<DiaryRow>)
    ensures
        !is_legacy_diary(DIARY_ENTRIES_TABLE@),
        !is_legacy_diary(DIARY_SHADOW_TABLE@),
        deleted_ids(kept_rows(rows), kept_rows(rows).len() as int) == Seq::<i64>::empty(),
        kept_rows(kept_rows(rows)) == kept_rows(rows),
{
    reveal_strlit("CREATE TABLE IF NOT EXISTS diary_entries (id INTEGER PRIMARY KEY AUTOINCREMENT, date DATE NOT NULL, title TEXT, content TEXT NOT NULL, mood INTEGER, images TEXT, created_at DATETIME DEFAULT CURRENT_TIMESTAMP, updated_at DATETIME DEFAULT CURRENT_TIMESTAMP)");
    reveal_strlit("CREATE TABLE IF NOT EXISTS diary_entries_new (id INTEGER PRIMARY KEY AUTOINCREMENT, date DATE NOT NULL, title TEXT, content TEXT NOT NULL, mood INTEGER, images TEXT, created_at DATETIME DEFAULT CURRENT_TIMESTAMP, updated_at DATETIME DEFAULT CURRENT_TIMESTAMP)");
    let a = DIARY_ENTRIES_TABLE@;
    let b = DIARY_SHADOW_TABLE@;
    assert forall|i: int| 0 <= i < a.len() implies a[i] != 'Q' by {}
    assert forall|i: int| 0 <= i < b.len() implies b[i] != 'Q' by {}
    lemma_no_q_not_legacy(a);
    lemma_no_q_not_legacy(b);
    lemma_dedup_idempotent(rows);
}

} // verus!
