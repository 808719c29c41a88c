//! The three kinds of record the store holds, and their mathematical views.
use vstd::prelude::*;

verus! {

/// A reusable, named rule set for one language and framework.
#[derive(Debug, Clone)]
pub struct CodeStandard {
    pub id: Option<i64>,
    pub name: String,
    pub framework: String,
    pub language: String,
    pub rules: String,
    pub best_practices: String,
    pub created_at: Option<String>,
}

/// The user's configuration; the store keeps at most one.
#[derive(Debug, Clone)]
pub struct UserConfig {
    pub id: Option<i64>,
    pub github_username: Option<String>,
    pub github_token: Option<String>,
    pub ollama_url: String,
    pub selected_model: Option<String>,
}

/// One past review run.
#[derive(Debug, Clone)]
pub struct ReviewHistory {
    pub id: i64,
    pub file_path: String,
    pub framework: String,
    pub language: String,
    pub review_result: String,
    pub issues_found: i32,
    pub reviewed_at: String,
}

pub struct CodeStandardView {
    pub id: Option<i64>,
    pub name: Seq<char>,
    pub framework: Seq<char>,
    pub language: Seq<char>,
    pub rules: Seq<char>,
    pub best_practices: Seq<char>,
    pub created_at: Option<Seq<char>>,
}

pub struct UserConfigView {
    pub id: Option<i64>,
    pub github_username: Option<Seq<char>>,
    pub github_token: Option<Seq<char>>,
    pub ollama_url: Seq<char>,
    pub selected_model: Option<Seq<char>>,
}

pub struct ReviewHistoryView {
    pub id: i64,
    pub file_path: Seq<char>,
    pub framework: Seq<char>,
    pub language: Seq<char>,
    pub review_result: Seq<char>,
    pub issues_found: i32,
    pub reviewed_at: Seq<char>,
}

pub open spec fn opt_text(o: Option<String>) -> Option<Seq<char>> {
    match o {
        Some(s) => Some(s@),
        None => None,
    }
}

impl View for CodeStandard {
    type V = CodeStandardView;

    open spec fn view(&self) -> CodeStandardView {
        CodeStandardView {
            id: self.id,
            name: self.name@,
            framework: self.framework@,
            language: self.language@,
            rules: self.rules@,
            best_practices: self.best_practices@,
            created_at: opt_text(self.created_at),
        }
    }
}

impl View for UserConfig {
    type V = UserConfigView;

    open spec fn view(&self) -> UserConfigView {
        UserConfigView {
            id: self.id,
            github_username: opt_text(self.github_username),
            github_token: opt_text(self.github_token),
            ollama_url: self.ollama_url@,
            selected_model: opt_text(self.selected_model),
        }
    }
}

impl View for ReviewHistory {
    type V = ReviewHistoryView;

    open spec fn view(&self) -> ReviewHistoryView {
        ReviewHistoryView {
            id: self.id,
            file_path: self.file_path@,
            framework: self.framework@,
            language: self.language@,
            review_result: self.review_result@,
            issues_found: self.issues_found,
            reviewed_at: self.reviewed_at@,
        }
    }
}

pub(crate) fn clone_text(o: &Option<String>) -> (r: Option<String>)
    ensures
        opt_text(r) == opt_text(*o),
{
    match o {
        Some(s) => Some(s.clone()),
        None => None,
    }
}

impl CodeStandard {
    /// A copy with the same view.
    pub(crate) fn copy_exact(&self) -> (r: CodeStandard)
        ensures
            r@ == self@,
    {
        CodeStandard {
            id: self.id,
            name: self.name.clone(),
            framework: self.framework.clone(),
            language: self.language.clone(),
            rules: self.rules.clone(),
            best_practices: self.best_practices.clone(),
            created_at: clone_text(&self.created_at),
        }
    }
}

impl UserConfig {
    /// A copy with the same view.
    pub(crate) fn copy_exact(&self) -> (r: UserConfig)
        ensures
            r@ == self@,
    {
        UserConfig {
            id: self.id,
            github_username: clone_text(&self.github_username),
            github_token: clone_text(&self.github_token),
            ollama_url: self.ollama_url.clone(),
            selected_model: clone_text(&self.selected_model),
        }
    }
}

impl ReviewHistory {
    /// A copy with the same view.
    pub(crate) fn copy_exact(&self) -> (r: ReviewHistory)
        ensures
            r@ == self@,
    {
        ReviewHistory {
            id: self.id,
            file_path: self.file_path.clone(),
            framework: self.framework.clone(),
            language: self.language.clone(),
            review_result: self.review_result.clone(),
            issues_found: self.issues_found,
            reviewed_at: self.reviewed_at.clone(),
        }
    }
}

} // verus!
