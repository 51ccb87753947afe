//! Delivery into the validator's inbox.
use vstd::prelude::*;
use crate::paths;
use crate::paths::join_path;
use crate::text;

verus! {

/// The inbox: where requests are written, and where they are then renamed to.
#[derive(Debug)]
pub struct Inbox {
    tmp: String,
    new: String,
}

/// The name of a delivered request: when it came, its number, and the process that took it.
/// Whoever brings the request has no say in it.
pub open spec fn delivery_name(secs: nat, nanos: nat, seq: nat, pid: nat) -> Seq<char> {
    text::dec(secs) + "."@ + text::dec(nanos) + ".M"@ + text::dec(seq) + "P"@ + text::dec(pid) + ".tot"@
}

/// The name of a delivered request.
pub fn unique_name(secs: u64, subsec_nanos: u32, seq: u64, pid: u32) -> (r: String)
    ensures
        r@ == delivery_name(secs as nat, subsec_nanos as nat, seq as nat, pid as nat),
{
    let mut name = text::dec_string(secs);
    name.append(".");
    text::push_dec(&mut name, subsec_nanos as u64);
    name.append(".M");
    text::push_dec(&mut name, seq);
    name.append("P");
    text::push_dec(&mut name, pid as u64);
    name.append(".tot");
    name
}

/// Requests that differ in their number, in the process that took them or in when they came
/// have different names.
pub proof fn law_names_are_distinct(
    secs: nat,
    nanos: nat,
    seq: nat,
    pid: nat,
    secs2: nat,
    nanos2: nat,
    seq2: nat,
    pid2: nat,
)
    requires
        delivery_name(secs, nanos, seq, pid) == delivery_name(secs2, nanos2, seq2, pid2),
    ensures
        secs == secs2,
        nanos == nanos2,
        seq == seq2,
        pid == pid2,
{
    lemma_parts(secs, nanos, seq, pid);
    lemma_parts(secs2, nanos2, seq2, pid2);
    text::lemma_numeral_cut(secs, from_nanos(nanos, seq, pid), secs2, from_nanos(nanos2, seq2, pid2));
    text::lemma_numeral_cut(nanos, from_seq(seq, pid), nanos2, from_seq(seq2, pid2));
    text::lemma_numeral_cut(seq, from_pid(pid), seq2, from_pid(pid2));
    text::lemma_numeral_cut(pid, ".tot"@, pid2, ".tot"@);
}

/// The end of a name, from the process on.
spec fn from_pid(pid: nat) -> Seq<char> {
    "P"@ + (text::dec(pid) + ".tot"@)
}

/// The end of a name, from the number on.
spec fn from_seq(seq: nat, pid: nat) -> Seq<char> {
    ".M"@ + (text::dec(seq) + from_pid(pid))
}

/// The end of a name, from the fraction of a second on.
spec fn from_nanos(nanos: nat, seq: nat, pid: nat) -> Seq<char> {
    "."@ + (text::dec(nanos) + from_seq(seq, pid))
}

proof fn lemma_parts(secs: nat, nanos: nat, seq: nat, pid: nat)
    ensures
        delivery_name(secs, nanos, seq, pid) == text::dec(secs) + from_nanos(nanos, seq, pid),
        from_nanos(nanos, seq, pid)[0] == '.',
        from_nanos(nanos, seq, pid).skip(1) == text::dec(nanos) + from_seq(seq, pid),
        from_seq(seq, pid)[0] == '.',
        from_seq(seq, pid).skip(2) == text::dec(seq) + from_pid(pid),
        from_pid(pid)[0] == 'P',
        from_pid(pid).skip(1) == text::dec(pid) + ".tot"@,
        ".tot"@[0] == '.',
{
    reveal_strlit(".");
    reveal_strlit(".M");
    reveal_strlit("P");
    reveal_strlit(".tot");
    assert(from_pid(pid).skip(1) == text::dec(pid) + ".tot"@);
    assert(from_seq(seq, pid).skip(2) == text::dec(seq) + from_pid(pid));
    assert(from_nanos(nanos, seq, pid).skip(1) == text::dec(nanos) + from_seq(seq, pid));
    lemma_joined(
        text::dec(secs),
        "."@,
        text::dec(nanos),
        ".M"@,
        text::dec(seq),
        "P"@,
        text::dec(pid),
        ".tot"@,
    );
}

proof fn lemma_joined(
    a: Seq<char>,
    b: Seq<char>,
    c: Seq<char>,
    d: Seq<char>,
    e: Seq<char>,
    f: Seq<char>,
    g: Seq<char>,
    h: Seq<char>,
)
    ensures
        a + b + c + d + e + f + g + h == a + (b + (c + (d + (e + (f + (g + h)))))),
{
    assert(a + b + c + d + e + f + g + h =~= a + (b + (c + (d + (e + (f + (g + h)))))));
}

impl Inbox {
    /// Where requests are written.
    pub closed spec fn draft_dir(self) -> Seq<char> {
        self.tmp@
    }

    /// Where requests are renamed to.
    pub closed spec fn new_dir(self) -> Seq<char> {
        self.new@
    }

    /// The inbox in a mail directory, and the directories that have to be there.
    pub fn open(inbox_dir: &str) -> (r: (Inbox, Vec<String>))
        ensures
            r.0.draft_dir() == paths::joined(inbox_dir@, "tmp"@),
            r.0.new_dir() == paths::joined(inbox_dir@, "new"@),
            text::views(r.1@) == seq![
                paths::joined(inbox_dir@, "tmp"@),
                paths::joined(inbox_dir@, "new"@),
                paths::joined(inbox_dir@, "cur"@),
            ],
    {
        let tmp = join_path(inbox_dir, "tmp");
        let new = join_path(inbox_dir, "new");
        let cur = join_path(inbox_dir, "cur");
        let mut dirs: Vec<String> = Vec::new();
        dirs.push(tmp.clone());
        dirs.push(new.clone());
        dirs.push(cur);
        assert(text::views(dirs@) == seq![
            paths::joined(inbox_dir@, "tmp"@),
            paths::joined(inbox_dir@, "new"@),
            paths::joined(inbox_dir@, "cur"@),
        ]);
        (Inbox { tmp, new }, dirs)
    }

    /// Where a request of the given name is written, and where it is renamed to.
    pub fn deliver(&self, name: &str) -> (r: (String, String))
        ensures
            r.0@ == paths::joined(self.draft_dir(), name@),
            r.1@ == paths::joined(self.new_dir(), name@),
    {
        (join_path(self.tmp.as_str(), name), join_path(self.new.as_str(), name))
    }

    /// Where requests are renamed to.
    pub fn new_path(&self) -> (r: &str)
        ensures
            r@ == self.new_dir(),
    {
        self.new.as_str()
    }
}


/// The name of a delivery says when it came, which one it is and who wrote it.
pub proof fn law_delivery_name_says_its_parts(secs: nat, nanos: nat, seq: nat, pid: nat)
    ensures
        delivery_name(secs, nanos, seq, pid) == text::dec(secs) + seq!['.'] + text::dec(nanos) + seq!['.', 'M']
            + text::dec(seq) + seq!['P'] + text::dec(pid) + seq!['.', 't', 'o', 't'],
        text::ends_with(delivery_name(secs, nanos, seq, pid), ".tot"@),
{
    reveal_strlit(".");
    reveal_strlit(".M");
    reveal_strlit("P");
    reveal_strlit(".tot");
    assert("."@ =~= seq!['.']);
    assert(".M"@ =~= seq!['.', 'M']);
    assert("P"@ =~= seq!['P']);
    assert(".tot"@ =~= seq!['.', 't', 'o', 't']);
    let start = text::dec(secs) + "."@ + text::dec(nanos) + ".M"@ + text::dec(seq) + "P"@ + text::dec(pid);
    text::lemma_put_together(start, ".tot"@, Seq::empty());
}

} // verus!
