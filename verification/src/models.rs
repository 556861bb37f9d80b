//! The worktree records that the commands report.
use vstd::prelude::*;
use crate::text::{append_chars, chars_of, decimal, decimal_chars, string_of};

verus! {

/// What git reports about a worktree's working state.
#[derive(Clone, Copy, Debug, PartialEq, Eq, Structural)]
pub struct WorktreeStatus {
    pub is_dirty: bool,
    pub is_stale: bool,
    pub ahead: u32,
    pub behind: u32,
}

/// One worktree of the repository.
#[derive(Clone, Debug)]
pub struct WorktreeInfo {
    pub path: String,
    pub name: String,
    pub branch: Option<String>,
    pub head_hash: String,
    pub head_msg: String,
    pub status: WorktreeStatus,
}

/// The mathematical content of a `WorktreeInfo`.
pub struct InfoView {
    pub path: Seq<char>,
    pub name: Seq<char>,
    pub branch: Option<Seq<char>>,
    pub head_hash: Seq<char>,
    pub head_msg: Seq<char>,
    pub status: WorktreeStatus,
}

/// The view of an optional string.
pub open spec fn opt_view(o: Option<String>) -> Option<Seq<char>> {
    match o {
        Some(s) => Some(s@),
        None => None,
    }
}

impl View for WorktreeInfo {
    type V = InfoView;

    open spec fn view(&self) -> InfoView {
        InfoView {
            path: self.path@,
            name: self.name@,
            branch: opt_view(self.branch),
            head_hash: self.head_hash@,
            head_msg: self.head_msg@,
            status: self.status,
        }
    }
}

/// The status of a worktree with nothing to report.
pub open spec fn clean_status() -> WorktreeStatus {
    WorktreeStatus { is_dirty: false, is_stale: false, ahead: 0, behind: 0 }
}

/// No uncommitted changes and in step with its upstream.
pub open spec fn status_is_clean(s: WorktreeStatus) -> bool {
    !s.is_dirty && s.ahead == 0 && s.behind == 0
}

/// The short text of a status: `clean`, or the parts `dirty`, `ahead N`,
/// `behind N` that apply, separated by `, `.
pub open spec fn status_text(s: WorktreeStatus) -> Seq<char> {
    let a = decimal(s.ahead as nat);
    let b = decimal(s.behind as nat);
    if !s.is_dirty {
        if s.ahead == 0 && s.behind == 0 {
            "clean"@
        } else if s.behind == 0 {
            "ahead "@ + a
        } else if s.ahead == 0 {
            "behind "@ + b
        } else {
            "ahead "@ + a + ", behind "@ + b
        }
    } else {
        if s.ahead == 0 && s.behind == 0 {
            "dirty"@
        } else if s.behind == 0 {
            "dirty, ahead "@ + a
        } else if s.ahead == 0 {
            "dirty, behind "@ + b
        } else {
            "dirty, ahead "@ + a + ", behind "@ + b
        }
    }
}

/// The branch of a worktree for display.
pub open spec fn branch_label(b: Option<Seq<char>>) -> Seq<char> {
    match b {
        Some(b) => b,
        None => "detached HEAD"@,
    }
}

/// The one-line description of a worktree: `PATH (BRANCH) [STATUS]`.
pub open spec fn info_text(w: InfoView) -> Seq<char> {
    w.path + " ("@ + branch_label(w.branch) + ") ["@ + status_text(w.status) + "]"@
}

impl WorktreeStatus {
    /// The status of a worktree with nothing to report.
    pub fn clean() -> (r: Self)
        ensures
            r == clean_status(),
    {
        WorktreeStatus { is_dirty: false, is_stale: false, ahead: 0, behind: 0 }
    }

    /// No uncommitted changes and in step with its upstream.
    pub fn is_clean(&self) -> (r: bool)
        ensures
            r == status_is_clean(*self),
    {
        !self.is_dirty && self.ahead == 0 && self.behind == 0
    }

    /// The short text of this status (its `Display` form).
    pub fn display_string(&self) -> (r: String)
        ensures
            r@ == status_text(*self),
    {
        let mut out: Vec<char> = Vec::new();
        let a = decimal_chars(self.ahead);
        let b = decimal_chars(self.behind);
        if !self.is_dirty {
            if self.ahead == 0 && self.behind == 0 {
                append_chars(&mut out, &chars_of("clean"));
            } else if self.behind == 0 {
                append_chars(&mut out, &chars_of("ahead "));
                append_chars(&mut out, &a);
            } else if self.ahead == 0 {
                append_chars(&mut out, &chars_of("behind "));
                append_chars(&mut out, &b);
            } else {
                append_chars(&mut out, &chars_of("ahead "));
                append_chars(&mut out, &a);
                append_chars(&mut out, &chars_of(", behind "));
                append_chars(&mut out, &b);
            }
        } else {
            if self.ahead == 0 && self.behind == 0 {
                append_chars(&mut out, &chars_of("dirty"));
            } else if self.behind == 0 {
                append_chars(&mut out, &chars_of("dirty, ahead "));
                append_chars(&mut out, &a);
            } else if self.ahead == 0 {
                append_chars(&mut out, &chars_of("dirty, behind "));
                append_chars(&mut out, &b);
            } else {
                append_chars(&mut out, &chars_of("dirty, ahead "));
                append_chars(&mut out, &a);
                append_chars(&mut out, &chars_of(", behind "));
                append_chars(&mut out, &b);
            }
        }
        assert(out@ =~= status_text(*self));
        string_of(&out)
    }
}

impl WorktreeInfo {
    /// The branch name, or `detached HEAD` when there is none.
    pub fn display_branch(&self) -> (r: &str)
        ensures
            r@ == branch_label(opt_view(self.branch)),
    {
        match &self.branch {
            Some(b) => b.as_str(),
            None => "detached HEAD",
        }
    }

    /// A copy of this record with the same contents.
    pub fn duplicate(&self) -> (r: Self)
        ensures
            r@ == self@,
    {
        let branch = match &self.branch {
            Some(b) => Some(b.clone()),
            None => None,
        };
        WorktreeInfo {
            path: self.path.clone(),
            name: self.name.clone(),
            branch,
            head_hash: self.head_hash.clone(),
            head_msg: self.head_msg.clone(),
            status: self.status,
        }
    }

    /// The one-line description of this worktree (its `Display` form).
    pub fn display_string(&self) -> (r: String)
        ensures
            r@ == info_text(self@),
    {
        let mut out = chars_of(self.path.as_str());
        append_chars(&mut out, &chars_of(" ("));
        append_chars(&mut out, &chars_of(self.display_branch()));
        append_chars(&mut out, &chars_of(") ["));
        let st = self.status.display_string();
        append_chars(&mut out, &chars_of(st.as_str()));
        append_chars(&mut out, &chars_of("]"));
        assert(out@ =~= info_text(self@));
        string_of(&out)
    }
}

} // verus!
