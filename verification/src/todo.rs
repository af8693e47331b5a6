//! The one domain entity: a titled, completable item with an optional URL.

use vstd::prelude::*;

verus! {

/// Mathematical value of a [`Todo`]: the title as a character sequence and
/// the two optional fields exactly as stored (defaults are applied at
/// serialization time, not at storage time).
#[verifier::ext_equal]
pub ghost struct TodoView {
    pub title: Seq<char>,
    pub completed: Option<bool>,
    pub url: Option<Seq<char>>,
}

/// A todo item. `title` is required; `completed` and `url` are nullable in
/// storage and default to `false` and `""` only when serialized.
pub struct Todo {
    pub title: String,
    pub completed: Option<bool>,
    pub url: Option<String>,
}

pub open spec fn opt_str_view(o: Option<String>) -> Option<Seq<char>> {
    match o {
        Some(s) => Some(s@),
        None => None,
    }
}

impl View for Todo {
    type V = TodoView;

    open spec fn view(&self) -> TodoView {
        TodoView { title: self.title@, completed: self.completed, url: opt_str_view(self.url) }
    }
}

impl Todo {
    /// Builds a todo from its three fields.
    pub fn new(title: String, completed: Option<bool>, url: Option<String>) -> (t: Todo)
        ensures
            t@ == (TodoView { title: title@, completed, url: opt_str_view(url) }),
    {
        Todo { title, completed, url }
    }
}

} // verus!
