//! An in-memory todo store with the semantics of the backing table:
//! rows keyed by a serial id that truncation does not reset.

use vstd::prelude::*;
use crate::error::ApiError;
use crate::json::{encode_todo_refs, json_of_todos};
use crate::todo::{Todo, TodoView};

verus! {

/// Mathematical value of one stored row.
#[verifier::ext_equal]
pub ghost struct RowView {
    pub id: int,
    pub todo: TodoView,
}

/// One stored row: the assigned id and the todo as submitted.
pub struct Row {
    pub id: i64,
    pub todo: Todo,
}

impl View for Row {
    type V = RowView;

    open spec fn view(&self) -> RowView {
        RowView { id: self.id as int, todo: self.todo@ }
    }
}

/// Mathematical value of the store: the rows in insertion order and the
/// next id the serial will assign.
#[verifier::ext_equal]
pub ghost struct StoreView {
    pub rows: Seq<RowView>,
    pub next_id: int,
}

/// The todos of a row sequence, in row order.
pub open spec fn todos_of(rows: Seq<RowView>) -> Seq<TodoView> {
    rows.map_values(|r: RowView| r.todo)
}

/// The first row with the given id, if any.
pub open spec fn find_todo(rows: Seq<RowView>, id: int) -> Option<TodoView>
    decreases rows.len(),
{
    if rows.len() == 0 {
        None
    } else if rows[0].id == id {
        Some(rows[0].todo)
    } else {
        find_todo(rows.drop_first(), id)
    }
}

/// A row appended under an id no existing row carries is found under that
/// id, and holds the appended todo.
pub proof fn lemma_find_todo_fresh(rows: Seq<RowView>, id: int, t: TodoView)
    requires
        forall|k: int| 0 <= k < rows.len() ==> (#[trigger] rows[k]).id != id,
    ensures
        find_todo(rows.push(RowView { id, todo: t }), id) == Some(t),
    decreases rows.len(),
{
    let r2 = rows.push(RowView { id, todo: t });
    if rows.len() == 0 {
        assert(r2[0] == RowView { id, todo: t });
    } else {
        assert(r2[0] == rows[0]);
        assert(rows[0].id != id);
        assert(r2.drop_first() =~= rows.drop_first().push(RowView { id, todo: t }));
        assert(forall|k: int|
            0 <= k < rows.drop_first().len() ==> (#[trigger] rows.drop_first()[k]).id != id);
        lemma_find_todo_fresh(rows.drop_first(), id, t);
    }
}

/// The in-memory store. Ids start at 1 and grow by one per created row;
/// truncation keeps the serial where it is, as the backing table would.
pub struct TodoStore {
    rows: Vec<Row>,
    next_id: i64,
}

impl View for TodoStore {
    type V = StoreView;

    closed spec fn view(&self) -> StoreView {
        StoreView { rows: self.rows@.map_values(|r: Row| r@), next_id: self.next_id as int }
    }
}

/// Well-formedness: every id was assigned below the serial, and no two
/// rows share an id.
pub open spec fn store_wf(s: StoreView) -> bool {
    &&& 1 <= s.next_id <= i64::MAX
    &&& forall|i: int| 0 <= i < s.rows.len() ==> 1 <= #[trigger] s.rows[i].id < s.next_id
    &&& forall|i: int, j: int|
        0 <= i < j < s.rows.len() ==> #[trigger] s.rows[i].id != #[trigger] s.rows[j].id
}

impl TodoStore {
    /// An empty store whose serial starts at 1.
    pub fn new() -> (s: TodoStore)
        ensures
            s@.rows == Seq::<RowView>::empty(),
            s@.next_id == 1,
            store_wf(s@),
    {
        let s = TodoStore { rows: Vec::new(), next_id: 1 };
        proof {
            assert(s@.rows =~= Seq::<RowView>::empty());
        }
        s
    }

    /// Appends one row under a fresh id. Fails, with the storage error,
    /// exactly when the serial is exhausted.
    pub fn create(&mut self, todo: Todo) -> (r: Result<i64, ApiError>)
        requires
            store_wf(old(self)@),
        ensures
            store_wf(final(self)@),
            match r {
                Ok(id) => {
                    &&& old(self)@.next_id < i64::MAX
                    &&& id == old(self)@.next_id
                    &&& final(self)@.rows == old(self)@.rows.push(
                        RowView { id: id as int, todo: todo@ },
                    )
                    &&& final(self)@.next_id == old(self)@.next_id + 1
                    &&& forall|i: int|
                        0 <= i < old(self)@.rows.len() ==> #[trigger] old(
                            self,
                        )@.rows[i].id != id
                },
                Err(e) => {
                    &&& old(self)@.next_id == i64::MAX
                    &&& e == ApiError::StorageUnavailable
                    &&& final(self)@ == old(self)@
                },
            },
    {
        if self.next_id == i64::MAX {
            assert(final(self)@ =~= old(self)@);
            return Err(ApiError::StorageUnavailable);
        }
        let id = self.next_id;
        self.next_id = self.next_id + 1;
        self.rows.push(Row { id, todo });
        proof {
            assert(final(self)@.rows =~= old(self)@.rows.push(
                RowView { id: id as int, todo: todo@ },
            ));
        }
        Ok(id)
    }

    /// The first stored todo under the given id, if any.
    pub fn get(&self, id: i64) -> (r: Option<&Todo>)
        ensures
            match r {
                Some(t) => find_todo(self@.rows, id as int) == Some(t@),
                None => find_todo(self@.rows, id as int) is None,
            },
    {
        let n = self.rows.len();
        proof {
            assert(self@.rows.skip(0) =~= self@.rows);
        }
        let mut i: usize = 0;
        while i < n
            invariant
                n == self.rows.len(),
                i <= n,
                find_todo(self@.rows, id as int) == find_todo(
                    self@.rows.skip(i as int),
                    id as int,
                ),
            decreases n - i,
        {
            proof {
                assert(self@.rows.skip(i as int)[0] == self@.rows[i as int]);
                assert(self@.rows.skip(i as int).drop_first() =~= self@.rows.skip(i + 1));
            }
            if self.rows[i].id == id {
                return Some(&self.rows[i].todo);
            }
            i = i + 1;
        }
        proof {
            assert(self@.rows.skip(n as int) =~= Seq::<RowView>::empty());
        }
        None
    }

    /// Removes every row; the serial keeps its value.
    pub fn truncate(&mut self)
        requires
            store_wf(old(self)@),
        ensures
            store_wf(final(self)@),
            final(self)@.rows == Seq::<RowView>::empty(),
            final(self)@.next_id == old(self)@.next_id,
    {
        self.rows = Vec::new();
        proof {
            assert(final(self)@.rows =~= Seq::<RowView>::empty());
        }
    }

    /// Serializes the whole store as the JSON array of its todos, in
    /// insertion order.
    pub fn list_json(&self) -> (r: String)
        ensures
            r@ == json_of_todos(todos_of(self@.rows)),
    {
        let mut refs: Vec<&Todo> = Vec::new();
        let n = self.rows.len();
        let mut i: usize = 0;
        while i < n
            invariant
                n == self.rows.len(),
                i <= n,
                refs@.len() == i,
                forall|k: int| 0 <= k < i ==> (#[trigger] refs@[k])@ == self@.rows[k].todo,
            decreases n - i,
        {
            refs.push(&self.rows[i].todo);
            i = i + 1;
        }
        let r = encode_todo_refs(&refs);
        proof {
            assert(refs@.map_values(|t: &Todo| t@) =~= todos_of(self@.rows));
        }
        r
    }
}

} // verus!
