use vstd::prelude::*;

use crate::commit::{committed, find_and_replace, has_match};
use crate::error::{ErrorKind, FrrError};
use crate::lines::lines_of;
use crate::preview::{any_line_contains, file_report, find, texts};
use crate::text::{chars_of, extend_chars, string_of};

verus! {

/// The views of a sequence of strings.
pub open spec fn strs(v: Seq<String>) -> Seq<Seq<char>> {
    v.map_values(|s: String| s@)
}

/// The indices below `n` whose outcome is a success, in increasing order.
pub open spec fn rewritten_indices(ok: Seq<bool>, n: int) -> Seq<int>
    decreases n,
{
    if n <= 0 {
        seq![]
    } else if ok[n - 1] {
        rewritten_indices(ok, n - 1).push(n - 1)
    } else {
        rewritten_indices(ok, n - 1)
    }
}

/// The files whose outcome is a success, in the order of the list.
pub open spec fn rewritten_files(files: Seq<Seq<char>>, ok: Seq<bool>) -> Seq<Seq<char>> {
    rewritten_indices(ok, ok.len() as int).map_values(|i: int| files[i])
}

/// The summary of a commit: one item for each rewritten file.
pub open spec fn summary_of(files: Seq<Seq<char>>) -> Seq<char>
    decreases files.len(),
{
    if files.len() == 0 {
        seq![]
    } else {
        summary_of(files.drop_last()) + "\n- '"@ + files.last() + "'\n"@
    }
}

proof fn lemma_indices_member(ok: Seq<bool>, n: int, i: int)
    requires
        n <= ok.len(),
    ensures
        rewritten_indices(ok, n).contains(i) <==> (0 <= i < n && ok[i]),
    decreases n,
{
    if n > 0 {
        lemma_indices_member(ok, n - 1, i);
        if ok[n - 1] {
            let prev = rewritten_indices(ok, n - 1);
            assert(prev.push(n - 1).contains(i) <==> (prev.contains(i) || i == n - 1)) by {
                if prev.push(n - 1).contains(i) {
                    let k = choose|k: int|
                        0 <= k < prev.len() + 1 && #[trigger] prev.push(n - 1)[k] == i;
                    if k < prev.len() {
                        assert(prev[k] == i);
                    }
                }
                if i == n - 1 {
                    assert(prev.push(n - 1)[prev.len() as int] == i);
                }
                if prev.contains(i) {
                    let k = choose|k: int| 0 <= k < prev.len() && #[trigger] prev[k] == i;
                    assert(prev.push(n - 1)[k] == i);
                }
            }
        }
    }
}

proof fn lemma_indices_prefix(ok: Seq<bool>, b: bool, n: int)
    requires
        n <= ok.len(),
    ensures
        rewritten_indices(ok.push(b), n) == rewritten_indices(ok, n),
    decreases n,
{
    if n > 0 {
        lemma_indices_prefix(ok, b, n - 1);
    }
}

/// Each file of a commit batch is listed as rewritten exactly when its own commit
/// succeeded: what happens to any other file of the batch, success or failure, does not
/// change that.
pub proof fn lemma_batch_independence(ok: Seq<bool>, j: int, other: bool, i: int)
    requires
        0 <= i < ok.len(),
        0 <= j < ok.len(),
        i != j,
    ensures
        rewritten_indices(ok, ok.len() as int).contains(i) <==> ok[i],
        rewritten_indices(ok.update(j, other), ok.len() as int).contains(i) <==> ok[i],
{
    lemma_indices_member(ok, ok.len() as int, i);
    lemma_indices_member(ok.update(j, other), ok.len() as int, i);
}

/// The preview of a list of files, one file at a time in the order of the list.
pub struct PreviewBatch {
    find: String,
    replace: String,
    files: Vec<String>,
    next: usize,
    report: Vec<char>,
    working_set: Vec<String>,
}

impl PreviewBatch {
    /// The pattern searched for.
    pub closed spec fn find_spec(&self) -> Seq<char> {
        self.find@
    }

    /// The text that would replace it.
    pub closed spec fn replace_spec(&self) -> Seq<char> {
        self.replace@
    }

    /// The files to preview.
    pub closed spec fn files_spec(&self) -> Seq<Seq<char>> {
        strs(self.files@)
    }

    /// How many files have been previewed.
    pub closed spec fn next_spec(&self) -> int {
        self.next as int
    }

    /// The reports of the files previewed so far, one after the other.
    pub closed spec fn report_spec(&self) -> Seq<char> {
        self.report@
    }

    /// The files previewed so far that contain the pattern, in order.
    pub closed spec fn working_set_spec(&self) -> Seq<Seq<char>> {
        strs(self.working_set@)
    }

    /// The batch's own consistency: how far it got, and what it recorded so far.
    pub closed spec fn wf(&self) -> bool {
        self.next <= self.files@.len()
    }

    /// A batch that previews replacing `find` by `replace` in `files`.
    pub fn new(find: &str, replace: &str, files: Vec<String>) -> (r: PreviewBatch)
        ensures
            r.wf(),
            r.find_spec() == find@,
            r.replace_spec() == replace@,
            r.files_spec() == strs(files@),
            r.next_spec() == 0,
            r.report_spec() == Seq::<char>::empty(),
            r.working_set_spec() == Seq::<Seq<char>>::empty(),
    {
        let r = PreviewBatch {
            find: find.to_owned(),
            replace: replace.to_owned(),
            files,
            next: 0,
            report: Vec::new(),
            working_set: Vec::new(),
        };
        proof {
            assert(strs(r.working_set@) =~= Seq::<Seq<char>>::empty());
        }
        r
    }

    /// The file to read next, if any is left.
    pub fn next_file(&self) -> (r: Option<String>)
        requires
            self.wf(),
        ensures
            r is Some <==> self.next_spec() < self.files_spec().len(),
            r is Some ==> r->0@ == self.files_spec()[self.next_spec()],
    {
        if self.next < self.files.len() {
            Some(self.files[self.next].clone())
        } else {
            None
        }
    }

    /// Previews the next file, whose content is `content`: its report is added to the
    /// batch's, and the file joins the working set where it contains the pattern.
    /// Returns the numbers of the lines that are not valid UTF-8.
    pub fn add_file(&mut self, content: &[u8]) -> (r: Vec<usize>)
        requires
            old(self).wf(),
            old(self).next_spec() < old(self).files_spec().len(),
        ensures
            final(self).wf(),
            final(self).find_spec() == old(self).find_spec(),
            final(self).replace_spec() == old(self).replace_spec(),
            final(self).files_spec() == old(self).files_spec(),
            final(self).next_spec() == old(self).next_spec() + 1,
            final(self).report_spec() == old(self).report_spec() + file_report(
                old(self).find_spec(),
                old(self).replace_spec(),
                old(self).files_spec()[old(self).next_spec()],
                texts(lines_of(content@)),
            ),
            final(self).working_set_spec() == if any_line_contains(
                texts(lines_of(content@)),
                old(self).find_spec(),
            ) {
                old(self).working_set_spec().push(old(self).files_spec()[old(self).next_spec()])
            } else {
                old(self).working_set_spec()
            },
    {
        proof {
            assert(strs(self.files@).len() == self.files@.len());
        }
        let n = self.next;
        assert(n < self.files.len());
        let path = self.files[self.next].clone();
        let fp = find(self.find.as_str(), self.replace.as_str(), path.as_str(), content);
        let found = !fp.report.as_str().is_empty();
        proof {
            if any_line_contains(texts(lines_of(content@)), self.find@) {
                reveal_strlit("\n\n\n### File: '");
                assert(fp.report@.len() > 0);
            }
        }
        extend_chars(&mut self.report, &chars_of(fp.report.as_str()));
        let ghost ws = strs(self.working_set@);
        if found {
            self.working_set.push(path);
            proof {
                assert(strs(self.working_set@) =~= ws.push(strs(self.files@)[self.next as int]));
            }
        }
        self.next = n + 1;
        fp.undecodable
    }

    /// The report and the working set once every file has been previewed; where no
    /// file contains the pattern, the batch has found nothing, which is an error.
    pub fn finish(self) -> (r: Result<(String, Vec<String>), FrrError>)
        requires
            self.wf(),
        ensures
            r is Ok <==> self.working_set_spec().len() > 0,
            r is Ok ==> r->Ok_0.0@ == self.report_spec() && strs(r->Ok_0.1@)
                == self.working_set_spec(),
            r is Err ==> r->Err_0.kind == ErrorKind::NoMatchesInBatch,
    {
        if self.working_set.len() > 0 {
            Ok((string_of(&self.report), self.working_set))
        } else {
            Err(FrrError::no_matches())
        }
    }
}

/// The commit of a list of files, one file at a time in the order of the list: each
/// file is read, rewritten where it contains the pattern, and written back. A file that
/// fails is recorded and the batch goes on with the next one.
pub struct CommitBatch {
    find: String,
    replace: String,
    files: Vec<String>,
    next: usize,
    pending: bool,
    outcomes: Ghost<Seq<bool>>,
    rewritten: Vec<String>,
    failures: Vec<FrrError>,
}

impl CommitBatch {
    /// The pattern to replace.
    pub closed spec fn find_spec(&self) -> Seq<char> {
        self.find@
    }

    /// The text that replaces it.
    pub closed spec fn replace_spec(&self) -> Seq<char> {
        self.replace@
    }

    /// The files to commit.
    pub closed spec fn files_spec(&self) -> Seq<Seq<char>> {
        strs(self.files@)
    }

    /// How many files are done with.
    pub closed spec fn next_spec(&self) -> int {
        self.next as int
    }

    /// The next file's new content is being written.
    pub closed spec fn pending_spec(&self) -> bool {
        self.pending
    }

    /// For each file done with, whether it was rewritten.
    pub closed spec fn outcomes_spec(&self) -> Seq<bool> {
        self.outcomes@
    }

    /// The failures so far, in order.
    pub closed spec fn failures_spec(&self) -> Seq<FrrError> {
        self.failures@
    }

    /// The batch's own consistency: how far it got, and what it recorded so far.
    pub closed spec fn wf(&self) -> bool {
        &&& self.next <= self.files@.len()
        &&& self.outcomes@.len() == self.next
        &&& self.pending ==> self.next < self.files@.len()
        &&& strs(self.rewritten@) == rewritten_files(strs(self.files@), self.outcomes@)
    }

    /// A batch that replaces `find` by `replace` in `files`.
    pub fn new(find: &str, replace: &str, files: Vec<String>) -> (r: CommitBatch)
        ensures
            r.wf(),
            r.find_spec() == find@,
            r.replace_spec() == replace@,
            r.files_spec() == strs(files@),
            r.next_spec() == 0,
            !r.pending_spec(),
            r.outcomes_spec() == Seq::<bool>::empty(),
            r.failures_spec() == Seq::<FrrError>::empty(),
    {
        let r = CommitBatch {
            find: find.to_owned(),
            replace: replace.to_owned(),
            files,
            next: 0,
            pending: false,
            outcomes: Ghost(Seq::empty()),
            rewritten: Vec::new(),
            failures: Vec::new(),
        };
        proof {
            assert(strs(r.rewritten@) =~= rewritten_files(strs(r.files@), r.outcomes@));
        }
        r
    }

    /// The file to read next, if any is left and no write is awaited.
    pub fn next_file(&self) -> (r: Option<String>)
        requires
            self.wf(),
        ensures
            r is Some <==> !self.pending_spec() && self.next_spec() < self.files_spec().len(),
            r is Some ==> r->0@ == self.files_spec()[self.next_spec()],
    {
        if !self.pending && self.next < self.files.len() {
            Some(self.files[self.next].clone())
        } else {
            None
        }
    }

    proof fn lemma_record(&self, ok: bool)
        requires
            self.wf(),
            self.next < self.files@.len(),
        ensures
            rewritten_files(strs(self.files@), self.outcomes@.push(ok)) == if ok {
                strs(self.rewritten@).push(strs(self.files@)[self.next as int])
            } else {
                strs(self.rewritten@)
            },
    {
        let ok_seq = self.outcomes@.push(ok);
        let n = self.next as int;
        lemma_indices_prefix(self.outcomes@, ok, n);
        let prev = rewritten_indices(self.outcomes@, n);
        assert(rewritten_indices(ok_seq, n + 1) == if ok {
            prev.push(n)
        } else {
            prev
        });
        let fs = strs(self.files@);
        if ok {
            assert(prev.push(n).map_values(|i: int| fs[i]) =~= prev.map_values(|i: int| fs[i]).push(
                fs[n],
            ));
        }
    }

    /// Handles the content `content` of the next file. Where a line contains the pattern,
    /// returns the new content, which is to be written and reported with `on_written`.
    /// Else there is nothing to write: the file failed with the pattern not found, and
    /// the batch goes on with the next one.
    pub fn on_read(&mut self, content: &[u8]) -> (r: Option<Vec<u8>>)
        requires
            old(self).wf(),
            !old(self).pending_spec(),
            old(self).next_spec() < old(self).files_spec().len(),
        ensures
            final(self).wf(),
            final(self).find_spec() == old(self).find_spec(),
            final(self).replace_spec() == old(self).replace_spec(),
            final(self).files_spec() == old(self).files_spec(),
            r is Some <==> has_match(lines_of(content@), old(self).find_spec()),
            r is Some ==> {
                &&& r->0@ == committed(old(self).find_spec(), old(self).replace_spec(), content@)
                &&& final(self).pending_spec()
                &&& final(self).next_spec() == old(self).next_spec()
                &&& final(self).outcomes_spec() == old(self).outcomes_spec()
                &&& final(self).failures_spec() == old(self).failures_spec()
            },
            r is None ==> {
                &&& !final(self).pending_spec()
                &&& final(self).next_spec() == old(self).next_spec() + 1
                &&& final(self).outcomes_spec() == old(self).outcomes_spec().push(false)
                &&& final(self).failures_spec().len() == old(self).failures_spec().len() + 1
                &&& final(self).failures_spec().drop_last() == old(self).failures_spec()
                &&& final(self).failures_spec().last().kind == ErrorKind::PatternNotFound
                &&& final(self).failures_spec().last().subject@ == old(self).files_spec()[old(
                    self,
                ).next_spec()]
            },
    {
        proof {
            assert(strs(self.files@).len() == self.files@.len());
        }
        let n = self.next;
        assert(n < self.files.len());
        let result = find_and_replace(
            self.find.as_str(),
            self.replace.as_str(),
            self.files[n].as_str(),
            content,
        );
        match result {
            Ok(out) => {
                self.pending = true;
                Some(out)
            },
            Err(e) => {
                proof {
                    self.lemma_record(false);
                }
                self.failures.push(e);
                self.outcomes = Ghost(self.outcomes@.push(false));
                self.next = n + 1;
                proof {
                    assert(self.failures@.drop_last() =~= old(self).failures@);
                }
                None
            },
        }
    }

    /// Records that the next file could not be read, for the reason `reason`; the batch
    /// goes on with the one after it.
    pub fn on_read_failed(&mut self, reason: &str)
        requires
            old(self).wf(),
            !old(self).pending_spec(),
            old(self).next_spec() < old(self).files_spec().len(),
        ensures
            final(self).wf(),
            final(self).find_spec() == old(self).find_spec(),
            final(self).replace_spec() == old(self).replace_spec(),
            final(self).files_spec() == old(self).files_spec(),
            !final(self).pending_spec(),
            final(self).next_spec() == old(self).next_spec() + 1,
            final(self).outcomes_spec() == old(self).outcomes_spec().push(false),
            final(self).failures_spec().len() == old(self).failures_spec().len() + 1,
            final(self).failures_spec().drop_last() == old(self).failures_spec(),
            final(self).failures_spec().last().kind == ErrorKind::FileAccess,
            final(self).failures_spec().last().subject@ == old(self).files_spec()[old(
                self,
            ).next_spec()],
            final(self).failures_spec().last().reason@ == reason@,
    {
        proof {
            assert(strs(self.files@).len() == self.files@.len());
            self.lemma_record(false);
        }
        let n = self.next;
        assert(n < self.files.len());
        let e = FrrError::file_access(self.files[n].as_str(), reason);
        self.failures.push(e);
        self.outcomes = Ghost(self.outcomes@.push(false));
        self.next = n + 1;
        proof {
            assert(self.failures@.drop_last() =~= old(self).failures@);
        }
    }

    /// Records whether the new content of the next file was written (`ok`), or failed
    /// for the reason `reason`; the batch goes on with the file after it.
    pub fn on_written(&mut self, ok: bool, reason: &str)
        requires
            old(self).wf(),
            old(self).pending_spec(),
        ensures
            final(self).wf(),
            final(self).find_spec() == old(self).find_spec(),
            final(self).replace_spec() == old(self).replace_spec(),
            final(self).files_spec() == old(self).files_spec(),
            !final(self).pending_spec(),
            final(self).next_spec() == old(self).next_spec() + 1,
            final(self).outcomes_spec() == old(self).outcomes_spec().push(ok),
            ok ==> final(self).failures_spec() == old(self).failures_spec(),
            !ok ==> {
                &&& final(self).failures_spec().len() == old(self).failures_spec().len() + 1
                &&& final(self).failures_spec().drop_last() == old(self).failures_spec()
                &&& final(self).failures_spec().last().kind == ErrorKind::FileAccess
                &&& final(self).failures_spec().last().subject@ == old(self).files_spec()[old(
                    self,
                ).next_spec()]
                &&& final(self).failures_spec().last().reason@ == reason@
            },
    {
        proof {
            assert(strs(self.files@).len() == self.files@.len());
            self.lemma_record(ok);
        }
        let n = self.next;
        assert(n < self.files.len());
        if ok {
            let path = self.files[n].clone();
            self.rewritten.push(path);
            proof {
                assert(strs(self.rewritten@) =~= strs(old(self).rewritten@).push(
                    strs(self.files@)[n as int],
                ));
            }
        } else {
            let e = FrrError::file_access(self.files[n].as_str(), reason);
            self.failures.push(e);
            proof {
                assert(self.failures@.drop_last() =~= old(self).failures@);
            }
        }
        self.outcomes = Ghost(self.outcomes@.push(ok));
        self.pending = false;
        self.next = n + 1;
    }

    /// The failures so far, in order.
    pub fn failures(&self) -> (r: &Vec<FrrError>)
        ensures
            r@ == self.failures_spec(),
    {
        &self.failures
    }

    /// The summary: one item for each file rewritten so far, in the order of the list.
    pub fn summary(&self) -> (r: String)
        requires
            self.wf(),
        ensures
            r@ == summary_of(rewritten_files(self.files_spec(), self.outcomes_spec())),
    {
        let ghost rw = strs(self.rewritten@);
        let mut out: Vec<char> = Vec::new();
        let mut k: usize = 0;
        while k < self.rewritten.len()
            invariant
                rw == strs(self.rewritten@),
                k <= self.rewritten@.len(),
                out@ == summary_of(rw.take(k as int)),
            decreases self.rewritten.len() - k,
        {
            extend_chars(&mut out, &chars_of("\n- '"));
            extend_chars(&mut out, &chars_of(self.rewritten[k].as_str()));
            extend_chars(&mut out, &chars_of("'\n"));
            proof {
                assert(rw.take(k + 1).drop_last() =~= rw.take(k as int));
                assert(rw.take(k + 1).last() == self.rewritten@[k as int]@);
            }
            k = k + 1;
        }
        proof {
            assert(rw.take(k as int) =~= rw);
        }
        string_of(&out)
    }
}

} // verus!
