use vstd::prelude::*;

verus! {

/// Changes to one diary entry; a field left `None` keeps its value.
#[derive(Debug, Clone)]
pub struct UpdateDiaryEntry {
    pub id: i64,
    pub title: Option<String>,
    pub content: Option<String>,
    pub mood: Option<i32>,
    pub images: Option<Vec<String>>,
}

/// A new alarm: time of day as text, and optional weekday labels.
#[derive(Debug, Clone)]
pub struct NewAlarm {
    pub time: String,
    pub days: Option<Vec<String>>,
    pub label: Option<String>,
    pub sound_path: Option<String>,
}

/// Changes to one alarm; a field left `None` keeps its value.
#[derive(Debug, Clone)]
pub struct UpdateAlarm {
    pub id: i64,
    pub time: Option<String>,
    pub days: Option<Vec<String>>,
    pub enabled: Option<bool>,
    pub label: Option<String>,
    pub sound_path: Option<String>,
}

/// Changes to one todo; a field left `None` keeps its value. The due time is
/// in seconds since the Unix epoch, UTC.
#[derive(Debug, Clone)]
pub struct UpdateTodo {
    pub id: i64,
    pub title: Option<String>,
    pub description: Option<String>,
    pub completed: Option<bool>,
    pub priority: Option<i32>,
    pub due_date: Option<i64>,
}

/// The interface theme, `"light"` or `"dark"`.
#[derive(Debug, Clone)]
pub struct Theme {
    pub mode: String,
}

} // verus!
