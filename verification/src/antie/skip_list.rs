//! The skip list: receivers whose cheques go to a directory instead of by mail.
//!
//! Sibling carriers write the ids of the wallets they serve into a plain text file, one id a
//! line. A cheque for a listed receiver is put into the skipped directory, where the sibling
//! carrier claims it.
use vstd::prelude::*;
use crate::antie::error::{AntieError, ErrorView};
use crate::paths;
use crate::paths::join_path;
use crate::text;

verus! {

/// The loaded skip list and the two paths it works with.
#[derive(Debug)]
pub struct SkipList {
    skip_list_path: String,
    skipped_dir: String,
    entries: Vec<String>,
}

/// Whether a trimmed line is an entry: neither blank nor a comment.
pub open spec fn is_entry(line: Seq<char>) -> bool {
    line.len() > 0 && line[0] != '#'
}

/// The entries among the given lines.
pub open spec fn entries_in(lines: Seq<Seq<char>>) -> Set<Seq<char>>
    decreases lines.len(),
{
    if lines.len() == 0 {
        Set::empty()
    } else {
        let line = text::trim(lines.last());
        if is_entry(line) {
            entries_in(lines.drop_last()).insert(line)
        } else {
            entries_in(lines.drop_last())
        }
    }
}

/// The entries of a skip-list file.
pub open spec fn listed(content: Seq<char>) -> Set<Seq<char>> {
    entries_in(text::lines(content))
}

/// An id is listed exactly if some line of the file, trimmed, is that id and is an entry.
pub proof fn law_listed_is_a_line(content: Seq<char>, id: Seq<char>)
    ensures
        listed(content).contains(id) <==> is_entry(id) && exists|i: int|
            0 <= i < text::lines(content).len() && text::trim(#[trigger] text::lines(content)[i]) == id,
{
    lemma_entries_in(text::lines(content), id);
}

proof fn lemma_entries_in(lines: Seq<Seq<char>>, id: Seq<char>)
    ensures
        entries_in(lines).contains(id) <==> is_entry(id) && exists|i: int|
            0 <= i < lines.len() && text::trim(#[trigger] lines[i]) == id,
    decreases lines.len(),
{
    if lines.len() > 0 {
        let front = lines.drop_last();
        lemma_entries_in(front, id);
        if is_entry(id) && exists|i: int| 0 <= i < lines.len() && text::trim(#[trigger] lines[i]) == id {
            let i = choose|i: int| 0 <= i < lines.len() && text::trim(#[trigger] lines[i]) == id;
            if i < front.len() {
                assert(front[i] == lines[i]);
            }
        }
        if entries_in(front).contains(id) {
            let i = choose|i: int| 0 <= i < front.len() && text::trim(#[trigger] front[i]) == id;
            assert(lines[i] == front[i]);
        }
        if text::trim(lines.last()) == id {
            assert(lines[lines.len() - 1] == lines.last());
        }
    }
}

/// How many of the names are claimable: those of writes in progress start with `.tmp.`.
pub open spec fn claimable(names: Seq<Seq<char>>) -> nat
    decreases names.len(),
{
    if names.len() == 0 {
        0
    } else {
        claimable(names.drop_last()) + if text::starts_with(names.last(), ".tmp."@) {
            0nat
        } else {
            1nat
        }
    }
}

/// Whether one of the entries is the given id.
fn is_among(entries: &Vec<String>, id: &str) -> (r: bool)
    ensures
        r == text::views(entries@).contains(id@),
{
    let mut i: usize = 0;
    while i < entries.len()
        invariant
            i <= entries@.len(),
            forall|k: int| 0 <= k < i ==> (#[trigger] entries@[k])@ != id@,
        decreases entries@.len() - i,
    {
        if text::same_text(entries[i].as_str(), id) {
            proof {
                assert(text::views(entries@)[i as int] == id@);
            }
            return true;
        }
        i = i + 1;
    }
    proof {
        assert forall|k: int| 0 <= k < text::views(entries@).len() implies (#[trigger] text::views(
            entries@,
        )[k]) != id@ by {
            assert(entries@[k]@ != id@);
        }
    }
    false
}

/// Reads the entries of a skip-list file; none twice.
fn load_entries(content: &str) -> (r: Vec<String>)
    ensures
        text::views(r@).to_set() == listed(content@),
        text::views(r@).no_duplicates(),
{
    let lines = text::lines_of(content);
    let ghost all = text::views(lines@);
    let mut out: Vec<String> = Vec::new();
    let mut i: usize = 0;
    proof {
        assert(text::views(out@).to_set() =~= Set::<Seq<char>>::empty());
        assert(all.take(0).len() == 0);
    }
    while i < lines.len()
        invariant
            i <= lines@.len(),
            all == text::views(lines@),
            text::views(out@).to_set() == entries_in(all.take(i as int)),
            text::views(out@).no_duplicates(),
        decreases lines@.len() - i,
    {
        let line = text::trimmed(lines[i].as_str());
        let ghost before = text::views(out@);
        proof {
            assert(all.take(i + 1).drop_last() == all.take(i as int));
            assert(all.take(i + 1).last() == lines@[i as int]@);
        }
        let starts = text::has_prefix(line.as_str(), "#");
        proof {
            reveal_strlit("#");
            if line@.len() > 0 {
                assert(starts == (line@[0] == '#')) by {
                    assert(line@.take(1) =~= seq![line@[0]]);
                    assert("#"@ =~= seq!['#']);
                    if line@[0] == '#' {
                        assert(line@.take(1) =~= "#"@);
                    } else {
                        assert(line@.take(1)[0] != "#"@[0]);
                    }
                }
            }
        }
        if !line.as_str().is_empty() && !starts {
            if !is_among(&out, line.as_str()) {
                out.push(line);
                proof {
                    assert(text::views(out@) == before.push(line@));
                    assert(before.push(line@).to_set() =~= before.to_set().insert(line@)) by {
                        assert forall|x: Seq<char>| before.to_set().insert(line@).contains(x) implies 
                            before.push(line@).to_set().contains(x) by {
                            if x == line@ {
                                assert(before.push(line@)[before.len() as int] == x);
                            } else {
                                let k = choose|k: int| 0 <= k < before.len() && before[k] == x;
                                assert(before.push(line@)[k] == x);
                            }
                        }
                    }
                    assert(before.push(line@).no_duplicates());
                }
            } else {
                proof {
                    assert(before.to_set().insert(line@) =~= before.to_set());
                }
            }
        }
        i = i + 1;
    }
    proof {
        assert(all.take(all.len() as int) == all);
    }
    out
}

impl SkipList {
    /// The ids whose cheques are not mailed.
    pub closed spec fn ids(self) -> Set<Seq<char>> {
        text::views(self.entries@).to_set()
    }

    /// Where the list is read from.
    pub closed spec fn source(self) -> Seq<char> {
        self.skip_list_path@
    }

    /// Where skipped cheques go.
    pub closed spec fn target(self) -> Seq<char> {
        self.skipped_dir@
    }

    /// The list for the configured paths, with what the file at the first of them holds;
    /// `None` if either path is missing. A file that cannot be read counts as empty.
    pub fn maybe_open(
        skip_list_path: Option<&str>,
        skipped_dir: Option<&str>,
        content: Option<&str>,
    ) -> (r: Option<SkipList>)
        ensures
            match (skip_list_path, skipped_dir) {
                (Some(source), Some(target)) => r matches Some(l) && l.source() == source@ && l.target()
                    == target@ && l.ids() == (match content {
                    Some(c) => listed(c@),
                    None => Set::<Seq<char>>::empty(),
                }),
                _ => r is None,
            },
    {
        match (skip_list_path, skipped_dir) {
            (Some(source), Some(target)) => {
                let entries = match content {
                    Some(c) => load_entries(c),
                    None => Vec::new(),
                };
                proof {
                    if content is None {
                        assert(text::views(entries@).to_set() =~= Set::<Seq<char>>::empty());
                    }
                }
                Some(
                    SkipList {
                        skip_list_path: String::from_str(source),
                        skipped_dir: String::from_str(target),
                        entries,
                    },
                )
            },
            _ => None,
        }
    }

    /// Takes over what the file now holds and returns the number of ids; if reading it
    /// failed, the list stays as it is.
    pub fn reload(&mut self, content: Result<&str, String>) -> (r: Result<usize, AntieError>)
        ensures
            final(self).source() == old(self).source(),
            final(self).target() == old(self).target(),
            match content {
                Ok(c) => final(self).ids() == listed(c@) && (r matches Ok(n) && n == listed(c@).len()),
                Err(e) => final(self).ids() == old(self).ids() && (r matches Err(f) && f@
                    == ErrorView::IoError(e@)),
            },
    {
        match content {
            Ok(c) => {
                self.entries = load_entries(c);
                proof {
                    text::views(self.entries@).unique_seq_to_set();
                }
                Ok(self.entries.len())
            },
            Err(e) => Err(AntieError::IoError(e)),
        }
    }

    /// Whether the cheques of a wallet are not mailed.
    pub fn contains(&self, receiver_wallet_id: &str) -> (r: bool)
        ensures
            r == self.ids().contains(receiver_wallet_id@),
    {
        is_among(&self.entries, receiver_wallet_id)
    }

    /// Where a skipped cheque is written first, and where it is renamed to.
    pub fn write_skipped(&self, filename_hint: &str) -> (r: (String, String))
        ensures
            r.0@ == paths::joined(self.target(), ".tmp."@ + filename_hint@),
            r.1@ == paths::joined(self.target(), filename_hint@),
    {
        let mut name = String::from_str(".tmp.");
        name.append(filename_hint);
        (
            join_path(self.skipped_dir.as_str(), name.as_str()),
            join_path(self.skipped_dir.as_str(), filename_hint),
        )
    }

    /// How many of the files named are cheques to be claimed.
    pub fn skipped_dir_count(&self, names: &Vec<String>) -> (r: usize)
        ensures
            r == claimable(text::views(names@)),
    {
        let ghost all = text::views(names@);
        let mut n: usize = 0;
        let mut i: usize = 0;
        while i < names.len()
            invariant
                i <= names@.len(),
                n <= i,
                all == text::views(names@),
                n == claimable(all.take(i as int)),
            decreases names@.len() - i,
        {
            proof {
                assert(all.take(i + 1).drop_last() == all.take(i as int));
                assert(all.take(i + 1).last() == names@[i as int]@);
            }
            if !text::has_prefix(names[i].as_str(), ".tmp.") {
                n = n + 1;
            }
            i = i + 1;
        }
        proof {
            assert(all.take(all.len() as int) == all);
        }
        n
    }

    /// Where skipped cheques go.
    pub fn skipped_dir_path(&self) -> (r: &str)
        ensures
            r@ == self.target(),
    {
        self.skipped_dir.as_str()
    }

    /// Where the list is read from.
    pub fn skip_list_path(&self) -> (r: &str)
        ensures
            r@ == self.source(),
    {
        self.skip_list_path.as_str()
    }
}

/// A cheque on its way is never counted, and once renamed it is, unless its own name marks it
/// as on its way.
pub proof fn law_only_finished_cheques_are_counted(names: Seq<Seq<char>>, name: Seq<char>)
    ensures
        claimable(Seq::empty()) == 0,
        claimable(names.push(".tmp."@ + name)) == claimable(names),
        !text::starts_with(name, ".tmp."@) ==> claimable(names.push(name)) == claimable(names) + 1,
{
    let tmp = ".tmp."@ + name;
    assert(names.push(tmp).drop_last() == names);
    assert(names.push(name).drop_last() == names);
    assert(tmp.take(".tmp."@.len() as int) == ".tmp."@);
}

} // verus!
