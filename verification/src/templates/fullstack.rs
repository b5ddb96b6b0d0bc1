//! The full-stack template: an in-memory todo list, blog posts and the home
//! page's data.

use vstd::prelude::*;

use crate::clock::{new_uuid, now_timestamp};

verus! {

/// The body of a request that creates a todo.
pub struct CreateTodoRequest {
    pub title: String,
    pub description: Option<String>,
}

/// A todo.
pub struct Todo {
    pub id: String,
    pub title: String,
    pub description: Option<String>,
    pub completed: bool,
    pub created_at: i64,
}

/// The todos created so far, in creation order.
pub struct TodoList {
    pub todos: Vec<Todo>,
}

impl TodoList {
    /// An empty list.
    pub fn new() -> (l: Self)
        ensures
            l.todos@ == Seq::<Todo>::empty(),
    {
        TodoList { todos: Vec::new() }
    }

    /// Appends the todo that `payload` describes, with id `id` and creation
    /// time `created_at`, not completed.
    pub fn add(&mut self, payload: CreateTodoRequest, id: String, created_at: i64)
        ensures
            final(self).todos@ == old(self).todos@.push(
                Todo {
                    id,
                    title: payload.title,
                    description: payload.description,
                    completed: false,
                    created_at,
                },
            ),
    {
        self.todos.push(
            Todo {
                id,
                title: payload.title,
                description: payload.description,
                completed: false,
                created_at,
            },
        );
    }

    /// Creates a todo under a fresh id with the current time; the new todo is
    /// the list's last.
    pub fn create(&mut self, payload: CreateTodoRequest) -> (r: &Todo)
        ensures
            final(self).todos@.len() == old(self).todos@.len() + 1,
            final(self).todos@.drop_last() == old(self).todos@,
            *r == final(self).todos@.last(),
            r.title == payload.title,
            r.description == payload.description,
            !r.completed,
            r.id@.len() == 36,
    {
        let id = new_uuid();
        let created_at = now_timestamp();
        self.add(payload, id, created_at);
        assert(self.todos@.drop_last() =~= old(self).todos@);
        let n = self.todos.len();
        &self.todos[n - 1]
    }
}

/// A blog post.
pub struct BlogPost {
    pub id: String,
    pub title: String,
    pub slug: String,
    pub excerpt: String,
    pub content: String,
    pub published_at: i64,
}

/// The data of the home page.
pub struct HomePageData {
    pub title: String,
    pub subtitle: String,
    pub features: Vec<String>,
}

/// The home page's data: the title (with the project name placeholder that
/// `virust init` fills in), the subtitle and the features listed.
pub fn home_page_data() -> (d: HomePageData)
    ensures
        d.title@ == "Welcome to {{project_name}}"@,
        d.subtitle@ == "A full-stack application built with Virust"@,
        d.features@.len() == 5,
        d.features@[0]@ == "Static Site Generation"@,
        d.features@[1]@ == "Incremental Static Regeneration"@,
        d.features@[2]@ == "Server-Side Rendering"@,
        d.features@[3]@ == "Intelligent Caching"@,
        d.features@[4]@ == "TypeScript + Tailwind"@,
{
    let mut features: Vec<String> = Vec::new();
    features.push("Static Site Generation".to_owned());
    features.push("Incremental Static Regeneration".to_owned());
    features.push("Server-Side Rendering".to_owned());
    features.push("Intelligent Caching".to_owned());
    features.push("TypeScript + Tailwind".to_owned());
    HomePageData {
        title: "Welcome to {{project_name}}".to_owned(),
        subtitle: "A full-stack application built with Virust".to_owned(),
        features,
    }
}

} // verus!
