//! The pages of the application and their paths.

use vstd::prelude::*;

use crate::text::same_text;

verus! {

/// A page of the application.
#[derive(Debug, Clone, Copy, PartialEq, Eq, Structural)]
pub enum Page {
    Dashboard,
    Tasks,
    Analytics,
    Settings,
}

/// The path under which `page` is shown.
pub open spec fn path_of(page: Page) -> Seq<char> {
    match page {
        Page::Dashboard => "/"@,
        Page::Tasks => "/tasks"@,
        Page::Analytics => "/analytics"@,
        Page::Settings => "/settings"@,
    }
}

/// The page shown under `path`; the dashboard under every unknown path.
pub open spec fn page_at(path: Seq<char>) -> Page {
    if path == "/tasks"@ {
        Page::Tasks
    } else if path == "/analytics"@ {
        Page::Analytics
    } else if path == "/settings"@ {
        Page::Settings
    } else {
        Page::Dashboard
    }
}

impl Page {
    /// The path under which this page is shown.
    pub fn to_path(&self) -> (path: &'static str)
        ensures
            path@ == path_of(*self),
    {
        match self {
            Page::Dashboard => "/",
            Page::Tasks => "/tasks",
            Page::Analytics => "/analytics",
            Page::Settings => "/settings",
        }
    }

    /// The page shown under `path`; the dashboard under every unknown path.
    pub fn from_path(path: &str) -> (page: Page)
        ensures
            page == page_at(path@),
    {
        if same_text(path, "/tasks") {
            Page::Tasks
        } else if same_text(path, "/analytics") {
            Page::Analytics
        } else if same_text(path, "/settings") {
            Page::Settings
        } else {
            Page::Dashboard
        }
    }
}

/// Every page is found again under its own path.
pub proof fn lemma_page_round_trip(page: Page)
    ensures
        page_at(path_of(page)) == page,
{
    reveal_strlit("/");
    reveal_strlit("/tasks");
    reveal_strlit("/analytics");
    reveal_strlit("/settings");
    assert("/"@.len() == 1);
    assert("/tasks"@.len() == 6);
    assert("/analytics"@.len() == 10);
    assert("/settings"@.len() == 9);
}

} // verus!
