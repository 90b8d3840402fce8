use vstd::prelude::*;
use crate::models::{UpdateAlarm, UpdateDiaryEntry, UpdateTodo};

verus! {

/// `c1 = ?, c2 = ?, ...` for the given columns.
pub open spec fn assignments(cols: Seq<Seq<char>>) -> Seq<char>
    decreases cols.len(),
{
    if cols.len() == 0 {
        seq![]
    } else if cols.len() == 1 {
        cols[0] + " = ?"@
    } else {
        assignments(cols.drop_last()) + ", "@ + cols.last() + " = ?"@
    }
}

/// An update of the row with a bound id, setting each column to a bound value
/// in the order given.
pub open spec fn update_sql(table: Seq<char>, cols: Seq<Seq<char>>) -> Seq<char> {
    "UPDATE "@ + table + " SET "@ + assignments(cols) + " WHERE id = ?"@
}

pub open spec fn column_if(present: bool, name: Seq<char>) -> Seq<Seq<char>> {
    if present {
        seq![name]
    } else {
        seq![]
    }
}

/// Columns that an alarm update sets, in order: those given a value.
pub open spec fn alarm_columns(a: UpdateAlarm) -> Seq<Seq<char>> {
    column_if(a.time is Some, "time"@) + column_if(a.days is Some, "days"@) + column_if(
        a.enabled is Some,
        "enabled"@,
    ) + column_if(a.label is Some, "label"@) + column_if(a.sound_path is Some, "sound_path"@)
}

/// Columns that a diary update sets, in order: the update time, then those
/// given a value.
pub open spec fn diary_columns(e: UpdateDiaryEntry) -> Seq<Seq<char>> {
    seq!["updated_at"@] + column_if(e.title is Some, "title"@) + column_if(
        e.content is Some,
        "content"@,
    ) + column_if(e.mood is Some, "mood"@) + column_if(e.images is Some, "images"@)
}

/// Columns that a todo update sets, in order: the update time, then those
/// given a value.
pub open spec fn todo_columns(t: UpdateTodo) -> Seq<Seq<char>> {
    seq!["updated_at"@] + column_if(t.title is Some, "title"@) + column_if(
        t.description is Some,
        "description"@,
    ) + column_if(t.completed is Some, "completed"@) + column_if(t.priority is Some, "priority"@)
        + column_if(t.due_date is Some, "due_date"@)
}

pub open spec fn texts(v: Seq<&str>) -> Seq<Seq<char>> {
    v.map_values(|c: &str| c@)
}

fn push_column_if(cols: &mut Vec<&'static str>, present: bool, name: &'static str)
    ensures
        texts(final(cols)@) == texts(old(cols)@) + column_if(present, name@),
{
    let ghost before = cols@;
    if present {
        cols.push(name);
        assert(texts(cols@) =~= texts(before) + seq![name@]);
    } else {
        assert(texts(cols@) =~= texts(before) + seq![]);
    }
}

/// The `UPDATE` statement for the given columns of `table`, or `None` when
/// there is no column to set.
pub fn update_statement(table: &str, columns: &Vec<&'static str>) -> (r: Option<String>)
    ensures
        r is None <==> columns@.len() == 0,
        r matches Some(s) ==> s@ == update_sql(table@, texts(columns@)),
{
    if columns.len() == 0 {
        return None;
    }
    let mut s = String::from_str("UPDATE ");
    s.append(table);
    s.append(" SET ");
    let ghost head = s@;
    let mut i: usize = 0;
    while i < columns.len()
        invariant
            i <= columns@.len(),
            head == "UPDATE "@ + table@ + " SET "@,
            s@ == head + assignments(texts(columns@.subrange(0, i as int))),
        decreases columns@.len() - i,
    {
        let ghost prev = s@;
        if i > 0 {
            s.append(", ");
        }
        s.append(columns[i]);
        s.append(" = ?");
        proof {
            let cs = texts(columns@.subrange(0, i + 1));
            assert(cs.drop_last() =~= texts(columns@.subrange(0, i as int)));
            assert(cs.last() == columns@[i as int]@);
            if i == 0 {
                assert(texts(columns@.subrange(0, 0)) =~= Seq::<Seq<char>>::empty());
                assert(cs.len() == 1);
            }
        }
        i += 1;
    }
    s.append(" WHERE id = ?");
    assert(columns@.subrange(0, columns@.len() as int) == columns@);
    Some(s)
}

/// Columns that an alarm update sets.
pub fn alarm_update_columns(a: &UpdateAlarm) -> (r: Vec<&'static str>)
    ensures
        texts(r@) == alarm_columns(*a),
{
    let mut cols: Vec<&'static str> = Vec::new();
    assert(texts(cols@) =~= Seq::<Seq<char>>::empty());
    push_column_if(&mut cols, a.time.is_some(), "time");
    push_column_if(&mut cols, a.days.is_some(), "days");
    push_column_if(&mut cols, a.enabled.is_some(), "enabled");
    push_column_if(&mut cols, a.label.is_some(), "label");
    push_column_if(&mut cols, a.sound_path.is_some(), "sound_path");
    assert(texts(cols@) =~= alarm_columns(*a));
    cols
}

/// Columns that a diary update sets.
pub fn diary_update_columns(e: &UpdateDiaryEntry) -> (r: Vec<&'static str>)
    ensures
        texts(r@) == diary_columns(*e),
{
    let mut cols: Vec<&'static str> = Vec::new();
    cols.push("updated_at");
    assert(texts(cols@) =~= seq!["updated_at"@]);
    push_column_if(&mut cols, e.title.is_some(), "title");
    push_column_if(&mut cols, e.content.is_some(), "content");
    push_column_if(&mut cols, e.mood.is_some(), "mood");
    push_column_if(&mut cols, e.images.is_some(), "images");
    assert(texts(cols@) =~= diary_columns(*e));
    cols
}

/// Columns that a todo update sets.
pub fn todo_update_columns(t: &UpdateTodo) -> (r: Vec<&'static str>)
    ensures
        texts(r@) == todo_columns(*t),
{
    let mut cols: Vec<&'static str> = Vec::new();
    cols.push("updated_at");
    assert(texts(cols@) =~= seq!["updated_at"@]);
    push_column_if(&mut cols, t.title.is_some(), "title");
    push_column_if(&mut cols, t.description.is_some(), "description");
    push_column_if(&mut cols, t.completed.is_some(), "completed");
    push_column_if(&mut cols, t.priority.is_some(), "priority");
    push_column_if(&mut cols, t.due_date.is_some(), "due_date");
    assert(texts(cols@) =~= todo_columns(*t));
    cols
}

} // verus!
