use vstd::prelude::*;

use crate::batch::strs;
use crate::text::chars_of;

verus! {

/// A file is eligible when its path ends with `.txt`, case included.
pub open spec fn eligible(path: Seq<char>) -> bool {
    path.len() >= 4 && path.subrange(path.len() - 4, path.len() as int) == ".txt"@
}

/// An entry of a directory: its path, and whether it is a directory.
pub struct Entry {
    pub path: String,
    pub is_dir: bool,
}

/// The view of an entry.
pub open spec fn entry_view(e: Entry) -> (Seq<char>, bool) {
    (e.path@, e.is_dir)
}

/// The views of a sequence of entries.
pub open spec fn entry_views(v: Seq<Entry>) -> Seq<(Seq<char>, bool)> {
    v.map_values(|e: Entry| entry_view(e))
}

/// What the crawl asks for next, in terms of views.
pub enum CrawlStep {
    Read(Seq<char>),
    Canonicalize(Seq<char>),
    Finished,
}

/// What the crawl asks for next.
pub enum CrawlAction {
    /// List the entries of this directory and hand them to `on_listing`.
    ReadDir(String),
    /// Canonicalize the path of this eligible file and hand it to `on_canonical`.
    Canonicalize(String),
    /// The crawl is over; these are the files found, in order.
    Done(Vec<String>),
}

/// The worklist `ws` (its last entry first) after taking entries until one needs the
/// outside: a directory to read or an eligible file to canonicalize. Other files are
/// passed over.
pub open spec fn advance(ws: Seq<(Seq<char>, bool)>) -> (Seq<(Seq<char>, bool)>, CrawlStep)
    decreases ws.len(),
{
    if ws.len() == 0 {
        (ws, CrawlStep::Finished)
    } else {
        let e = ws.last();
        let rest = ws.drop_last();
        if e.1 {
            (rest, CrawlStep::Read(e.0))
        } else if eligible(e.0) {
            (rest, CrawlStep::Canonicalize(e.0))
        } else {
            advance(rest)
        }
    }
}

/// A depth-first walk of a directory tree: the entries of each directory are taken in
/// the order in which they were listed, and a subdirectory is walked whole before the
/// entries after it. The files found are the eligible ones, canonicalized.
pub struct Crawler {
    worklist: Vec<Entry>,
    found: Vec<String>,
}

impl Crawler {
    /// The entries still to take, the next one last.
    pub closed spec fn worklist_spec(&self) -> Seq<(Seq<char>, bool)> {
        entry_views(self.worklist@)
    }

    /// The canonical paths found so far, in order.
    pub closed spec fn found_spec(&self) -> Seq<Seq<char>> {
        strs(self.found@)
    }

    /// A crawl of the directory `root`.
    pub fn new(root: &str) -> (r: Crawler)
        ensures
            r.worklist_spec() == seq![(root@, true)],
            r.found_spec() == Seq::<Seq<char>>::empty(),
    {
        let mut worklist: Vec<Entry> = Vec::new();
        worklist.push(Entry { path: root.to_owned(), is_dir: true });
        let r = Crawler { worklist, found: Vec::new() };
        proof {
            assert(entry_views(r.worklist@) =~= seq![(root@, true)]);
            assert(strs(r.found@) =~= Seq::<Seq<char>>::empty());
        }
        r
    }

    /// Takes entries until one needs the outside, and says what to do.
    pub fn next_action(&mut self) -> (r: CrawlAction)
        ensures
            final(self).worklist_spec() == advance(old(self).worklist_spec()).0,
            final(self).found_spec() == old(self).found_spec(),
            match (r, advance(old(self).worklist_spec()).1) {
                (CrawlAction::ReadDir(p), CrawlStep::Read(q)) => p@ == q,
                (CrawlAction::Canonicalize(p), CrawlStep::Canonicalize(q)) => p@ == q,
                (CrawlAction::Done(v), CrawlStep::Finished) => strs(v@) == old(self).found_spec(),
                _ => false,
            },
    {
        let ghost goal = advance(entry_views(self.worklist@));
        loop
            invariant
                advance(entry_views(self.worklist@)) == goal,
                goal == advance(old(self).worklist_spec()),
                self.found@ == old(self).found@,
            decreases self.worklist@.len(),
        {
            let ghost ws = entry_views(self.worklist@);
            match self.worklist.pop() {
                None => {
                    proof {
                        assert(ws.len() == 0);
                        assert(goal == (ws, CrawlStep::Finished));
                        assert(entry_views(self.worklist@) == ws);
                        assert(goal == advance(old(self).worklist_spec()));
                        assert(final(self).worklist_spec() == entry_views(self.worklist@));
                    }
                    return CrawlAction::Done(self.found.clone());
                },
                Some(e) => {
                    proof {
                        assert(entry_views(self.worklist@) =~= ws.drop_last());
                        assert(ws.last() == entry_view(e));
                    }
                    if e.is_dir {
                        proof {
                            assert(advance(ws) == (ws.drop_last(), CrawlStep::Read(e.path@)));
                            assert(goal == advance(old(self).worklist_spec()));
                            assert(final(self).worklist_spec() == entry_views(self.worklist@));
                            assert(goal.0 == entry_views(self.worklist@));
                        }
                        return CrawlAction::ReadDir(e.path);
                    }
                    if is_eligible(e.path.as_str()) {
                        proof {
                            assert(advance(ws) == (
                                ws.drop_last(),
                                CrawlStep::Canonicalize(e.path@),
                            ));
                            assert(goal.0 == entry_views(self.worklist@));
                            assert(goal == advance(old(self).worklist_spec()));
                            assert(final(self).worklist_spec() == entry_views(self.worklist@));
                        }
                        return CrawlAction::Canonicalize(e.path);
                    }
                },
            }
        }
    }

    /// Adds the entries of the directory just read, in the order listed.
    pub fn on_listing(&mut self, entries: Vec<Entry>)
        ensures
            final(self).worklist_spec() == old(self).worklist_spec() + entry_views(
                entries@,
            ).reverse(),
            final(self).found_spec() == old(self).found_spec(),
    {
        let mut entries = entries;
        let ghost all = entry_views(entries@);
        while entries.len() > 0
            invariant
                entry_views(self.worklist@) + entry_views(entries@).reverse() == entry_views(
                    old(self).worklist@,
                ) + all.reverse(),
                self.found@ == old(self).found@,
            decreases entries@.len(),
        {
            let ghost before = entry_views(entries@);
            let ghost wl = entry_views(self.worklist@);
            let e = entries.pop().unwrap();
            proof {
                assert(entry_views(entries@) =~= before.drop_last());
                assert(before.last() == entry_view(e));
            }
            self.worklist.push(e);
            proof {
                assert(entry_views(self.worklist@) =~= wl.push(before.last()));
                assert(before.reverse() =~= seq![before.last()] + before.drop_last().reverse());
                assert(wl + before.reverse() =~= wl.push(before.last())
                    + before.drop_last().reverse());
            }
        }
        proof {
            assert(entry_views(entries@).reverse() =~= Seq::<(Seq<char>, bool)>::empty());
            assert(entry_views(self.worklist@) =~= entry_views(self.worklist@) + entry_views(
                entries@,
            ).reverse());
        }
    }

    /// Records the canonical path of the eligible file just canonicalized.
    pub fn on_canonical(&mut self, path: String)
        ensures
            final(self).worklist_spec() == old(self).worklist_spec(),
            final(self).found_spec() == old(self).found_spec().push(path@),
    {
        let ghost f = strs(self.found@);
        let ghost p = path@;
        self.found.push(path);
        proof {
            assert(strs(self.found@) =~= f.push(p));
        }
    }
}

/// Whether `path` names an eligible file: it ends with `.txt`, case included.
pub fn is_eligible(path: &str) -> (r: bool)
    ensures
        r == eligible(path@),
{
    let p = chars_of(path);
    let suffix = chars_of(".txt");
    proof {
        reveal_strlit(".txt");
    }
    if p.len() < 4 {
        return false;
    }
    let start = p.len() - 4;
    let mut k: usize = 0;
    while k < 4
        invariant
            start + 4 == p@.len(),
            p@.len() <= usize::MAX,
            p@ == path@,
            suffix@ == ".txt"@,
            suffix@.len() == 4,
            k <= 4,
            forall|j: int| 0 <= j < k ==> p@[start + j] == suffix@[j],
        decreases 4 - k,
    {
        if p[start + k] != suffix[k] {
            proof {
                assert(p@.subrange(start as int, p@.len() as int)[k as int] != suffix@[k as int]);
            }
            return false;
        }
        k = k + 1;
    }
    proof {
        assert(p@.subrange(start as int, p@.len() as int) =~= suffix@);
    }
    true
}

} // verus!
