//! A task, and how it stands in a row of the table.

use vstd::prelude::*;
use crate::numeral::{decimal, lemma_decimal_round_trip, numeral_value, parse_number, render_number};
use crate::text::{
    is_trimmed, lemma_trimmed_is_trimmed, lemma_untouched_when_trimmed, same_text, trim, trimmed,
};

verus! {

/// One task of the list.
#[derive(Debug, Clone, PartialEq, Eq)]
pub struct Todo {
    /// The task's place in the table, counted from one.
    pub id: usize,
    /// What is to be done.
    pub task: String,
    /// Whether it has been done.
    pub completed: bool,
}

/// A task as a mathematical value.
pub struct TodoView {
    pub id: nat,
    pub task: Seq<char>,
    pub completed: bool,
}

impl View for Todo {
    type V = TodoView;

    open spec fn view(&self) -> TodoView {
        TodoView { id: self.id as nat, task: self.task@, completed: self.completed }
    }
}

impl DeepView for Todo {
    type V = TodoView;

    open spec fn deep_view(&self) -> TodoView {
        self@
    }
}

/// Whether a task's id can stand in the table: a positive number that fits a
/// machine word.
pub open spec fn valid_id(id: nat) -> bool {
    1 <= id <= usize::MAX
}

/// The header row of the table.
pub open spec fn header_fields() -> Seq<Seq<char>> {
    seq!["ID"@, "TASK"@, "COMPLETED"@]
}

/// How the completion flag is written.
pub open spec fn flag_text(completed: bool) -> Seq<char> {
    if completed {
        "true"@
    } else {
        "false"@
    }
}

/// The task as it stands in the table: its description is trimmed.
pub open spec fn stored(t: TodoView) -> TodoView {
    TodoView { id: t.id, task: trimmed(t.task), completed: t.completed }
}

/// The three fields of a task's row: the id as a decimal numeral, the
/// trimmed description, the flag.
pub open spec fn fields_of(t: TodoView) -> Seq<Seq<char>> {
    seq![decimal(t.id), trimmed(t.task), flag_text(t.completed)]
}

/// The task that a row stands for, if it stands for one: three fields, the
/// first a numeral of a positive number, the last `true` or `false`.
pub open spec fn todo_of_fields(fields: Seq<Seq<char>>) -> Option<TodoView> {
    if fields.len() != 3 {
        None
    } else {
        match numeral_value(fields[0]) {
            Some(id) => if id >= 1 && (fields[2] == "true"@ || fields[2] == "false"@) {
                Some(TodoView { id, task: fields[1], completed: fields[2] == "true"@ })
            } else {
                None
            },
            None => None,
        }
    }
}

/// A task's row stands for that task with its description trimmed, whatever
/// the description holds; for the very same task where the description
/// neither begins nor ends with white space. No task's row is the header.
pub proof fn lemma_fields_round_trip(t: TodoView)
    requires
        valid_id(t.id),
    ensures
        todo_of_fields(fields_of(t)) == Some(stored(t)),
        is_trimmed(t.task) ==> stored(t) == t,
        stored(stored(t)) == stored(t),
        fields_of(stored(t)) == fields_of(t),
        fields_of(t) != header_fields(),
{
    lemma_trimmed_is_trimmed(t.task);
    if is_trimmed(t.task) {
        lemma_untouched_when_trimmed(t.task);
    }
    reveal_strlit("true");
    reveal_strlit("false");
    reveal_strlit("ID");
    lemma_decimal_round_trip(t.id);
    assert("true"@ != "false"@) by {
        assert("true"@.len() == 4);
        assert("false"@.len() == 5);
    }
    let f = fields_of(t);
    assert(f[0] == decimal(t.id));
    assert(f[1] == trimmed(t.task));
    assert(f[2] == flag_text(t.completed));
    assert(fields_of(stored(t)) =~= f);
    if f == header_fields() {
        assert(header_fields()[0] == "ID"@);
        assert(decimal(t.id)[0] == 'I');
    }
}

impl Todo {
    /// A task that is still to be done.
    pub fn new(id: usize, task: &str) -> (todo: Todo)
        ensures
            todo@ == (TodoView { id: id as nat, task: task@, completed: false }),
    {
        Todo { id, task: String::from_str(task), completed: false }
    }

    /// A second value that holds what `self` holds.
    pub fn duplicate(&self) -> (todo: Todo)
        ensures
            todo@ == self@,
    {
        Todo { id: self.id, task: self.task.clone(), completed: self.completed }
    }

    /// The task's row: its id as a decimal numeral, its description without
    /// the white space around it, and `true` or `false`.
    pub fn to_fields(&self) -> (fields: Vec<String>)
        ensures
            fields.deep_view() == fields_of(self@),
    {
        let mut fields: Vec<String> = Vec::new();
        fields.push(render_number(self.id));
        fields.push(String::from_str(trim(self.task.as_str())));
        if self.completed {
            fields.push(String::from_str("true"));
        } else {
            fields.push(String::from_str("false"));
        }
        assert(fields.deep_view() =~= fields_of(self@));
        fields
    }

    /// Reads a task from a row. `None` where the row is not three fields, the
    /// first a numeral of a positive number and the last `true` or `false`.
    pub fn from_fields(fields: &Vec<String>) -> (todo: Option<Todo>)
        ensures
            match todo_of_fields(fields.deep_view()) {
                Some(v) => todo is Some && todo.unwrap()@ == v,
                None => todo is None,
            },
    {
        if fields.len() != 3 {
            return None;
        }
        let ghost f = fields.deep_view();
        assert(f[0] == fields[0]@ && f[1] == fields[1]@ && f[2] == fields[2]@);
        let id: usize = match parse_number(fields[0].as_str()) {
            Some(id) => id,
            None => {
                return None;
            },
        };
        if id == 0 {
            return None;
        }
        let completed: bool = if same_text(fields[2].as_str(), "true") {
            true
        } else if same_text(fields[2].as_str(), "false") {
            false
        } else {
            return None;
        };
        Some(Todo { id, task: fields[1].clone(), completed })
    }
}

/// The header row: `ID`, `TASK`, `COMPLETED`.
pub fn header_row() -> (fields: Vec<String>)
    ensures
        fields.deep_view() == header_fields(),
{
    let mut fields: Vec<String> = Vec::new();
    fields.push(String::from_str("ID"));
    fields.push(String::from_str("TASK"));
    fields.push(String::from_str("COMPLETED"));
    assert(fields.deep_view() =~= header_fields());
    fields
}

/// Whether a row is the header row.
pub fn is_header_row(fields: &Vec<String>) -> (yes: bool)
    ensures
        yes == (fields.deep_view() == header_fields()),
{
    let ghost f = fields.deep_view();
    assert(f.len() == fields.len() && header_fields().len() == 3);
    if fields.len() != 3 {
        return false;
    }
    assert(f[0] == fields[0]@ && f[1] == fields[1]@ && f[2] == fields[2]@);
    let yes = same_text(fields[0].as_str(), "ID") && same_text(fields[1].as_str(), "TASK")
        && same_text(fields[2].as_str(), "COMPLETED");
    assert(yes ==> f =~= header_fields());
    yes
}

} // verus!
