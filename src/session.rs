use vstd::prelude::*;

use crate::batch::strs;
use crate::error::{message_of, FrrError};
use crate::text::{
    chars_of, contains, contains_at_all, extend_chars, replace_all, replace_chars, string_of,
};

verus! {

/// What `str::trim` returns for a string with the characters `s`.
pub uninterp spec fn trimmed(s: Seq<char>) -> Seq<char>;

/// Relies on `str::trim`: the string without its leading and trailing white space, which
/// depends on the characters alone.
#[verifier::external_body]
fn trim(s: &str) -> (r: String)
    ensures
        r@ == trimmed(s@),
{
    s.trim().to_owned()
}

/// The input that has the keyboard focus.
#[derive(Clone, Copy, Debug, PartialEq, Eq, Structural)]
pub enum Field {
    Find,
    Replace,
    Dir,
}

/// Where a session stands in the preview, confirm and commit cycle.
#[derive(Clone, Copy, Debug, PartialEq, Eq, Structural)]
pub enum Phase {
    /// Nothing is running.
    Idle,
    /// Files are being collected and previewed.
    Searching,
    /// A preview is shown, and the working set awaits confirmation.
    Previewed,
    /// The working set is being rewritten.
    Committing,
}

/// What the caller is to run for the session.
pub enum Action {
    Nothing,
    /// Collect the files under `root` and preview the substitution in them.
    Search { find: String, replace: String, root: String },
    /// Commit the substitution in `files`.
    Commit { find: String, replace: String, files: Vec<String> },
}

/// The field that follows `f` when the focus moves on.
pub open spec fn following(f: Field) -> Field {
    match f {
        Field::Find => Field::Replace,
        Field::Replace => Field::Dir,
        Field::Dir => Field::Find,
    }
}

/// `path` is absolute: it starts with a slash.
pub open spec fn absolute(path: Seq<char>) -> bool {
    path.len() > 0 && path[0] == '/'
}

/// The text shown when a commit is over.
pub open spec fn done_text(find: Seq<char>, replace: Seq<char>, summary: Seq<char>) -> Seq<char> {
    "Replaced '"@ + find + "' with '"@ + replace + "' in the following files: "@ + summary
}

/// The state of an interactive find and replace: the inputs, the text shown, and the
/// working set of the last preview, which is what a commit rewrites.
pub struct Session {
    find: String,
    replace: String,
    last_find: String,
    last_replace: String,
    path: String,
    text: String,
    phase: Phase,
    working_set: Vec<String>,
    focus: Field,
}

impl Session {
    /// The find input.
    pub closed spec fn find_spec(&self) -> Seq<char> {
        self.find@
    }

    /// The replace input.
    pub closed spec fn replace_spec(&self) -> Seq<char> {
        self.replace@
    }

    /// The find text of the last commit.
    pub closed spec fn last_find_spec(&self) -> Seq<char> {
        self.last_find@
    }

    /// The replace text of the last commit.
    pub closed spec fn last_replace_spec(&self) -> Seq<char> {
        self.last_replace@
    }

    /// The directory input.
    pub closed spec fn path_spec(&self) -> Seq<char> {
        self.path@
    }

    /// The text shown: a report, a summary or a message.
    pub closed spec fn text_spec(&self) -> Seq<char> {
        self.text@
    }

    /// Where the session stands.
    pub closed spec fn phase_spec(&self) -> Phase {
        self.phase
    }

    /// The files that the last preview found the pattern in.
    pub closed spec fn working_set_spec(&self) -> Seq<Seq<char>> {
        strs(self.working_set@)
    }

    /// The input with the keyboard focus.
    pub closed spec fn focus_spec(&self) -> Field {
        self.focus
    }

    /// The inputs other than the text shown and the phase are as in `other`.
    pub open spec fn same_inputs(&self, other: &Session) -> bool {
        &&& self.find_spec() == other.find_spec()
        &&& self.replace_spec() == other.replace_spec()
        &&& self.last_find_spec() == other.last_find_spec()
        &&& self.last_replace_spec() == other.last_replace_spec()
        &&& self.path_spec() == other.path_spec()
        &&& self.focus_spec() == other.focus_spec()
    }

    /// A session with empty inputs, nothing shown, and the focus on the find input.
    pub fn new() -> (r: Session)
        ensures
            r.find_spec() == Seq::<char>::empty(),
            r.replace_spec() == Seq::<char>::empty(),
            r.last_find_spec() == Seq::<char>::empty(),
            r.last_replace_spec() == Seq::<char>::empty(),
            r.path_spec() == Seq::<char>::empty(),
            r.text_spec() == Seq::<char>::empty(),
            r.phase_spec() == Phase::Idle,
            r.working_set_spec() == Seq::<Seq<char>>::empty(),
            r.focus_spec() == Field::Find,
    {
        let r = Session {
            find: String::new(),
            replace: String::new(),
            last_find: String::new(),
            last_replace: String::new(),
            path: String::new(),
            text: String::new(),
            phase: Phase::Idle,
            working_set: Vec::new(),
            focus: Field::Find,
        };
        proof {
            assert(strs(r.working_set@) =~= Seq::<Seq<char>>::empty());
        }
        r
    }

    /// The inputs can be edited: no preview awaits confirmation.
    pub fn editable(&self) -> (r: bool)
        ensures
            r == (self.phase_spec() != Phase::Previewed),
    {
        self.phase != Phase::Previewed
    }

    /// A preview awaits confirmation.
    pub fn confirming(&self) -> (r: bool)
        ensures
            r == (self.phase_spec() == Phase::Previewed),
    {
        self.phase == Phase::Previewed
    }

    /// The find input.
    pub fn find(&self) -> (r: &str)
        ensures
            r@ == self.find_spec(),
    {
        self.find.as_str()
    }

    /// The replace input.
    pub fn replace(&self) -> (r: &str)
        ensures
            r@ == self.replace_spec(),
    {
        self.replace.as_str()
    }

    /// The directory input.
    pub fn path(&self) -> (r: &str)
        ensures
            r@ == self.path_spec(),
    {
        self.path.as_str()
    }

    /// The text shown.
    pub fn text(&self) -> (r: &str)
        ensures
            r@ == self.text_spec(),
    {
        self.text.as_str()
    }

    /// The input with the keyboard focus.
    pub fn focus(&self) -> (r: Field)
        ensures
            r == self.focus_spec(),
    {
        self.focus
    }
}

impl Session {
    /// Sets the find input to `s` trimmed, where the inputs can be edited.
    pub fn set_find(&mut self, s: &str)
        ensures
            final(self).find_spec() == if old(self).phase_spec() != Phase::Previewed {
                trimmed(s@)
            } else {
                old(self).find_spec()
            },
            final(self).replace_spec() == old(self).replace_spec(),
            final(self).path_spec() == old(self).path_spec(),
            final(self).last_find_spec() == old(self).last_find_spec(),
            final(self).last_replace_spec() == old(self).last_replace_spec(),
            final(self).text_spec() == old(self).text_spec(),
            final(self).phase_spec() == old(self).phase_spec(),
            final(self).working_set_spec() == old(self).working_set_spec(),
            final(self).focus_spec() == old(self).focus_spec(),
    {
        if self.phase != Phase::Previewed {
            self.find = trim(s);
        }
    }

    /// Sets the replace input to `s` trimmed, where the inputs can be edited.
    pub fn set_replace(&mut self, s: &str)
        ensures
            final(self).replace_spec() == if old(self).phase_spec() != Phase::Previewed {
                trimmed(s@)
            } else {
                old(self).replace_spec()
            },
            final(self).find_spec() == old(self).find_spec(),
            final(self).path_spec() == old(self).path_spec(),
            final(self).last_find_spec() == old(self).last_find_spec(),
            final(self).last_replace_spec() == old(self).last_replace_spec(),
            final(self).text_spec() == old(self).text_spec(),
            final(self).phase_spec() == old(self).phase_spec(),
            final(self).working_set_spec() == old(self).working_set_spec(),
            final(self).focus_spec() == old(self).focus_spec(),
    {
        if self.phase != Phase::Previewed {
            self.replace = trim(s);
        }
    }

    /// Sets the directory input to `s` trimmed, where the inputs can be edited.
    pub fn set_path(&mut self, s: &str)
        ensures
            final(self).path_spec() == if old(self).phase_spec() != Phase::Previewed {
                trimmed(s@)
            } else {
                old(self).path_spec()
            },
            final(self).find_spec() == old(self).find_spec(),
            final(self).replace_spec() == old(self).replace_spec(),
            final(self).last_find_spec() == old(self).last_find_spec(),
            final(self).last_replace_spec() == old(self).last_replace_spec(),
            final(self).text_spec() == old(self).text_spec(),
            final(self).phase_spec() == old(self).phase_spec(),
            final(self).working_set_spec() == old(self).working_set_spec(),
            final(self).focus_spec() == old(self).focus_spec(),
    {
        if self.phase != Phase::Previewed {
            self.path = trim(s);
        }
    }

    /// Carries a substitution over to the directory input: after a commit that replaced
    /// `last_find` by `last_replace`, a directory named after the old text can be renamed
    /// in the input too. With `from_find` the last find text is replaced by the current
    /// one, else the last replace text by the current one. Where the last text is empty
    /// or not in the path, the path stays and a message says so.
    pub fn update_path(&mut self, from_find: bool)
        ensures
            ({
                let cur = if from_find {
                    old(self).find_spec()
                } else {
                    old(self).replace_spec()
                };
                let prev = if from_find {
                    old(self).last_find_spec()
                } else {
                    old(self).last_replace_spec()
                };
                if old(self).phase_spec() == Phase::Previewed {
                    final(self).path_spec() == old(self).path_spec() && final(self).text_spec()
                        == old(self).text_spec()
                } else if prev.len() == 0 || !contains(old(self).path_spec(), prev) {
                    final(self).path_spec() == old(self).path_spec() && final(self).text_spec()
                        == "Could not update the path automatically, please update it manually."@
                } else {
                    final(self).path_spec() == replace_all(old(self).path_spec(), prev, cur)
                        && final(self).text_spec() == old(self).text_spec()
                }
            }),
            final(self).find_spec() == old(self).find_spec(),
            final(self).replace_spec() == old(self).replace_spec(),
            final(self).last_find_spec() == old(self).last_find_spec(),
            final(self).last_replace_spec() == old(self).last_replace_spec(),
            final(self).phase_spec() == old(self).phase_spec(),
            final(self).working_set_spec() == old(self).working_set_spec(),
            final(self).focus_spec() == old(self).focus_spec(),
    {
        if self.phase == Phase::Previewed {
            return;
        }
        let cur = if from_find {
            chars_of(self.find.as_str())
        } else {
            chars_of(self.replace.as_str())
        };
        let prev = if from_find {
            chars_of(self.last_find.as_str())
        } else {
            chars_of(self.last_replace.as_str())
        };
        let path = chars_of(self.path.as_str());
        if prev.len() == 0 || !contains_at_all(&path, &prev) {
            self.text = "Could not update the path automatically, please update it manually.".to_owned();
        } else {
            self.path = string_of(&replace_chars(&path, &prev, &cur));
        }
    }

    /// Starts a search: the find text and an absolute directory are needed; the replace
    /// text may be empty. Where one is missing, a message says what, and nothing runs.
    pub fn start_search(&mut self) -> (r: Action)
        ensures
            final(self).same_inputs(old(self)),
            final(self).working_set_spec() == old(self).working_set_spec(),
            ({
                let f = old(self).find_spec();
                let p = old(self).path_spec();
                if f.len() == 0 || p.len() == 0 {
                    &&& r is Nothing
                    &&& final(self).phase_spec() == Phase::Idle
                    &&& final(self).text_spec()
                        == "Please enter the text to find and a directory."@
                } else if !absolute(p) {
                    &&& r is Nothing
                    &&& final(self).phase_spec() == Phase::Idle
                    &&& final(self).text_spec() == "Please enter an absolute path."@
                } else {
                    &&& r matches Action::Search { find, replace, root } && find@ == f
                        && replace@ == old(self).replace_spec() && root@ == p
                    &&& final(self).phase_spec() == Phase::Searching
                    &&& final(self).text_spec() == "# Searching..."@
                }
            }),
    {
        if self.find.as_str().is_empty() || self.path.as_str().is_empty() {
            self.phase = Phase::Idle;
            self.text = "Please enter the text to find and a directory.".to_owned();
            return Action::Nothing;
        }
        let p = chars_of(self.path.as_str());
        if p[0] != '/' {
            self.phase = Phase::Idle;
            self.text = "Please enter an absolute path.".to_owned();
            return Action::Nothing;
        }
        self.phase = Phase::Searching;
        self.text = "# Searching...".to_owned();
        Action::Search {
            find: self.find.clone(),
            replace: self.replace.clone(),
            root: self.path.clone(),
        }
    }

    /// Takes the outcome of the search started last: the report and working set of the
    /// preview, or the error. A search that was cancelled meanwhile is dropped.
    pub fn search_finished(&mut self, outcome: Result<(String, Vec<String>), FrrError>)
        ensures
            final(self).same_inputs(old(self)),
            old(self).phase_spec() != Phase::Searching ==> {
                &&& final(self).phase_spec() == old(self).phase_spec()
                &&& final(self).text_spec() == old(self).text_spec()
                &&& final(self).working_set_spec() == old(self).working_set_spec()
            },
            old(self).phase_spec() == Phase::Searching ==> match outcome {
                Ok((report, files)) => {
                    &&& final(self).phase_spec() == Phase::Previewed
                    &&& final(self).text_spec() == report@
                    &&& final(self).working_set_spec() == strs(files@)
                },
                Err(e) => {
                    &&& final(self).phase_spec() == Phase::Idle
                    &&& final(self).text_spec() == message_of(e.kind, e.subject@, e.reason@)
                    &&& final(self).working_set_spec() == Seq::<Seq<char>>::empty()
                },
            },
    {
        if self.phase != Phase::Searching {
            return;
        }
        match outcome {
            Ok((report, files)) => {
                self.phase = Phase::Previewed;
                self.text = report;
                self.working_set = files;
            },
            Err(e) => {
                self.phase = Phase::Idle;
                self.text = e.message();
                self.working_set = Vec::new();
                proof {
                    assert(strs(self.working_set@) =~= Seq::<Seq<char>>::empty());
                }
            },
        }
    }

    /// Confirms the preview: the working set of the preview is committed, with the
    /// texts that it was made with. The find and replace texts are kept for
    /// `update_path`. Without a preview awaiting confirmation nothing runs.
    pub fn start_commit(&mut self) -> (r: Action)
        ensures
            final(self).find_spec() == old(self).find_spec(),
            final(self).replace_spec() == old(self).replace_spec(),
            final(self).path_spec() == old(self).path_spec(),
            final(self).focus_spec() == old(self).focus_spec(),
            final(self).working_set_spec() == old(self).working_set_spec(),
            old(self).phase_spec() != Phase::Previewed ==> {
                &&& r is Nothing
                &&& final(self).last_find_spec() == old(self).last_find_spec()
                &&& final(self).last_replace_spec() == old(self).last_replace_spec()
                &&& final(self).phase_spec() == old(self).phase_spec()
                &&& final(self).text_spec() == old(self).text_spec()
            },
            old(self).phase_spec() == Phase::Previewed ==> {
                &&& r matches Action::Commit { find, replace, files } && find@
                    == old(self).find_spec() && replace@ == old(self).replace_spec() && strs(
                    files@,
                ) == old(self).working_set_spec()
                &&& final(self).last_find_spec() == old(self).find_spec()
                &&& final(self).last_replace_spec() == old(self).replace_spec()
                &&& final(self).phase_spec() == Phase::Committing
                &&& final(self).text_spec() == "# Replacing..."@
            },
    {
        if self.phase != Phase::Previewed {
            return Action::Nothing;
        }
        self.phase = Phase::Committing;
        self.text = "# Replacing...".to_owned();
        self.last_find = self.find.clone();
        self.last_replace = self.replace.clone();
        Action::Commit {
            find: self.find.clone(),
            replace: self.replace.clone(),
            files: self.working_set.clone(),
        }
    }

    /// Takes the summary of the commit started last. A commit whose session was
    /// cancelled meanwhile is dropped.
    pub fn commit_finished(&mut self, summary: &str)
        ensures
            final(self).same_inputs(old(self)),
            old(self).phase_spec() != Phase::Committing ==> {
                &&& final(self).phase_spec() == old(self).phase_spec()
                &&& final(self).text_spec() == old(self).text_spec()
                &&& final(self).working_set_spec() == old(self).working_set_spec()
            },
            old(self).phase_spec() == Phase::Committing ==> {
                &&& final(self).phase_spec() == Phase::Idle
                &&& final(self).text_spec() == done_text(
                    old(self).last_find_spec(),
                    old(self).last_replace_spec(),
                    summary@,
                )
                &&& final(self).working_set_spec() == Seq::<Seq<char>>::empty()
            },
    {
        if self.phase != Phase::Committing {
            return;
        }
        let mut out: Vec<char> = Vec::new();
        extend_chars(&mut out, &chars_of("Replaced '"));
        extend_chars(&mut out, &chars_of(self.last_find.as_str()));
        extend_chars(&mut out, &chars_of("' with '"));
        extend_chars(&mut out, &chars_of(self.last_replace.as_str()));
        extend_chars(&mut out, &chars_of("' in the following files: "));
        extend_chars(&mut out, &chars_of(summary));
        self.text = string_of(&out);
        self.phase = Phase::Idle;
        self.working_set = Vec::new();
        proof {
            assert(strs(self.working_set@) =~= Seq::<Seq<char>>::empty());
            assert(self.text@ =~= done_text(self.last_find@, self.last_replace@, summary@));
        }
    }

    /// Cancels: a preview awaiting confirmation is dropped, as is the result of a search
    /// or commit still running.
    pub fn cancel(&mut self)
        ensures
            final(self).same_inputs(old(self)),
            final(self).phase_spec() == Phase::Idle,
            final(self).text_spec() == "Operation cancelled."@,
            final(self).working_set_spec() == Seq::<Seq<char>>::empty(),
    {
        self.phase = Phase::Idle;
        self.text = "Operation cancelled.".to_owned();
        self.working_set = Vec::new();
        proof {
            assert(strs(self.working_set@) =~= Seq::<Seq<char>>::empty());
        }
    }

    /// The enter key: confirms a preview awaiting confirmation, as `start_commit` does,
    /// else starts a search, as `start_search` does.
    pub fn enter(&mut self) -> (r: Action)
        ensures
            final(self).find_spec() == old(self).find_spec(),
            final(self).replace_spec() == old(self).replace_spec(),
            final(self).path_spec() == old(self).path_spec(),
            final(self).focus_spec() == old(self).focus_spec(),
            final(self).working_set_spec() == old(self).working_set_spec(),
            old(self).phase_spec() == Phase::Previewed ==> {
                &&& r matches Action::Commit { find, replace, files } && find@
                    == old(self).find_spec() && replace@ == old(self).replace_spec() && strs(
                    files@,
                ) == old(self).working_set_spec()
                &&& final(self).last_find_spec() == old(self).find_spec()
                &&& final(self).last_replace_spec() == old(self).replace_spec()
                &&& final(self).phase_spec() == Phase::Committing
                &&& final(self).text_spec() == "# Replacing..."@
            },
            old(self).phase_spec() != Phase::Previewed ==> {
                let f = old(self).find_spec();
                let p = old(self).path_spec();
                &&& final(self).last_find_spec() == old(self).last_find_spec()
                &&& final(self).last_replace_spec() == old(self).last_replace_spec()
                &&& if f.len() == 0 || p.len() == 0 {
                    &&& r is Nothing
                    &&& final(self).phase_spec() == Phase::Idle
                    &&& final(self).text_spec()
                        == "Please enter the text to find and a directory."@
                } else if !absolute(p) {
                    &&& r is Nothing
                    &&& final(self).phase_spec() == Phase::Idle
                    &&& final(self).text_spec() == "Please enter an absolute path."@
                } else {
                    &&& r matches Action::Search { find, replace, root } && find@ == f
                        && replace@ == old(self).replace_spec() && root@ == p
                    &&& final(self).phase_spec() == Phase::Searching
                    &&& final(self).text_spec() == "# Searching..."@
                }
            },
    {
        if self.phase == Phase::Previewed {
            self.start_commit()
        } else {
            self.start_search()
        }
    }

    /// The tab key: moves the focus to the next input, find, replace and directory in
    /// turn.
    pub fn next_focus(&mut self) -> (r: Field)
        ensures
            r == following(old(self).focus_spec()),
            final(self).focus_spec() == r,
            final(self).find_spec() == old(self).find_spec(),
            final(self).replace_spec() == old(self).replace_spec(),
            final(self).last_find_spec() == old(self).last_find_spec(),
            final(self).last_replace_spec() == old(self).last_replace_spec(),
            final(self).path_spec() == old(self).path_spec(),
            final(self).text_spec() == old(self).text_spec(),
            final(self).phase_spec() == old(self).phase_spec(),
            final(self).working_set_spec() == old(self).working_set_spec(),
    {
        self.focus = match self.focus {
            Field::Find => Field::Replace,
            Field::Replace => Field::Dir,
            Field::Dir => Field::Find,
        };
        self.focus
    }
}

} // verus!
