//! The todo template, whose todos live in the persistence store.

use vstd::prelude::*;

verus! {

/// The body of a request that creates a todo.
pub struct CreateTodoRequest {
    pub title: String,
    pub description: Option<String>,
}

/// A todo as the API returns it.
pub struct TodoResponse {
    pub id: String,
    pub title: String,
    pub description: Option<String>,
    pub completed: bool,
    pub created_at: i64,
}

/// The reply to creating a todo stored under `id` at `created_at`: the
/// request's fields, not completed.
pub fn todo_response(id: String, request: CreateTodoRequest, created_at: i64) -> (r: TodoResponse)
    ensures
        r.id == id,
        r.title == request.title,
        r.description == request.description,
        !r.completed,
        r.created_at == created_at,
{
    TodoResponse {
        id,
        title: request.title,
        description: request.description,
        completed: false,
        created_at,
    }
}

} // verus!
