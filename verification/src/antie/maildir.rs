//! Mail directories: mail waits in `new`, is put away into `cur`, and comes
//! into being in `tmp`.
use vstd::prelude::*;
use crate::antie::email;
use crate::antie::error::{labelled, AntieError, ErrorView};
use crate::paths;
use crate::text;

verus! {

/// A mail directory.
pub struct Maildir {
    base: String,
}

/// The parts of the name of a mail: the microseconds since the epoch, the
/// process, the host and an identifier.
pub open spec fn mail_name(micros: nat, pid: nat, host: Seq<char>, unique: Seq<char>) -> Seq<char> {
    text::dec(micros) + "."@ + text::dec(pid) + "."@ + host + "."@ + unique
}

impl Maildir {
    /// Where the directory is.
    pub closed spec fn at(self) -> Seq<char> {
        self.base@
    }

    /// The mail directory at a path.
    pub fn open(path: &str) -> (r: Self)
        ensures
            r.at() == path@,
    {
        Maildir { base: String::from_str(path) }
    }

    /// Where the directory is.
    pub fn path(&self) -> (r: &str)
        ensures
            r@ == self.at(),
    {
        self.base.as_str()
    }

    /// The directories that there must be.
    pub fn directories(&self) -> (r: Vec<String>)
        ensures
            text::views(r@) == seq![
                paths::joined(self.at(), "new"@),
                paths::joined(self.at(), "cur"@),
                paths::joined(self.at(), "tmp"@),
            ],
    {
        let mut out: Vec<String> = Vec::new();
        out.push(paths::join_path(self.base.as_str(), "new"));
        out.push(paths::join_path(self.base.as_str(), "cur"));
        out.push(paths::join_path(self.base.as_str(), "tmp"));
        assert(text::views(out@) == seq![
            paths::joined(self.at(), "new"@),
            paths::joined(self.at(), "cur"@),
            paths::joined(self.at(), "tmp"@),
        ]);
        out
    }

    /// Where a waiting mail is, by its id.
    pub fn waiting(&self, message_id: &str) -> (r: String)
        ensures
            r@ == paths::joined(paths::joined(self.at(), "new"@), message_id@),
    {
        paths::join_path(paths::join_path(self.base.as_str(), "new").as_str(), message_id)
    }

    /// Where a mail goes that is put away: its name with the flag for mail that
    /// has been seen.
    pub fn mark_processed(&self, path: &str) -> (r: Result<String, AntieError>)
        ensures
            match paths::name_text(path@) {
                None => r matches Err(e) && e@ == ErrorView::MaildirError("Invalid filename"@),
                Some(n) => r matches Ok(dest) && dest@ == paths::joined(
                    paths::joined(self.at(), "cur"@),
                    n + ":2,S"@,
                ),
            },
    {
        match paths::name_of_path(path) {
            None => Err(AntieError::MaildirError(String::from_str("Invalid filename"))),
            Some(n) => Ok(
                paths::join_path(
                    paths::join_path(self.base.as_str(), "cur").as_str(),
                    labelled(n.as_str(), ":2,S").as_str(),
                ),
            ),
        }
    }

    /// Where a new mail comes into being, and where it waits then, under a fresh identifier.
    pub fn write_message(&self, micros: u128, pid: u32) -> (r: (String, String))
        ensures
            exists|unique: Seq<char>| #[trigger]
                email::is_uuid(unique) && r.0@ == paths::joined(
                    paths::joined(self.at(), "tmp"@),
                    mail_name(micros as nat, pid as nat, "localhost"@, unique),
                ) && r.1@ == paths::joined(
                    paths::joined(self.at(), "new"@),
                    mail_name(micros as nat, pid as nat, "localhost"@, unique),
                ),
    {
        let unique = email::random_uuid();
        self.message_paths(micros, pid, unique.as_str())
    }

    /// Where a new mail with the given identifier comes into being, and where it waits then.
    pub fn message_paths(&self, micros: u128, pid: u32, unique: &str) -> (r: (String, String))
        ensures
            r.0@ == paths::joined(
                paths::joined(self.at(), "tmp"@),
                mail_name(micros as nat, pid as nat, "localhost"@, unique@),
            ),
            r.1@ == paths::joined(
                paths::joined(self.at(), "new"@),
                mail_name(micros as nat, pid as nat, "localhost"@, unique@),
            ),
    {
        let mut name = String::new();
        text::push_dec_wide(&mut name, micros);
        name.append(".");
        text::push_dec(&mut name, pid as u64);
        name.append(".");
        name.append("localhost");
        name.append(".");
        name.append(unique);
        assert(name@ == mail_name(micros as nat, pid as nat, "localhost"@, unique@));
        (
            paths::join_path(
                paths::join_path(self.base.as_str(), "tmp").as_str(),
                name.as_str(),
            ),
            paths::join_path(
                paths::join_path(self.base.as_str(), "new").as_str(),
                name.as_str(),
            ),
        )
    }
}


/// The name of a mail is its time, the process, the host and the identifier, with full stops
/// between them. Mails of one time, process and host differ in their identifiers.
pub proof fn law_mail_name_says_its_parts(
    micros: nat,
    pid: nat,
    host: Seq<char>,
    unique: Seq<char>,
    other: Seq<char>,
)
    ensures
        mail_name(micros, pid, host, unique) == text::join(
            seq![text::dec(micros), text::dec(pid), host, unique],
            seq!['.'],
        ),
        mail_name(micros, pid, host, unique) == mail_name(micros, pid, host, other) ==> unique == other,
{
    reveal_strlit(".");
    assert("."@ =~= seq!['.']);
    let four = seq![text::dec(micros), text::dec(pid), host, unique];
    reveal_with_fuel(text::join, 5);
    assert(four.drop_last() =~= seq![text::dec(micros), text::dec(pid), host]);
    assert(four.drop_last().drop_last() =~= seq![text::dec(micros), text::dec(pid)]);
    assert(four.drop_last().drop_last().drop_last() =~= seq![text::dec(micros)]);
    let start = text::dec(micros) + "."@ + text::dec(pid) + "."@ + host + "."@;
    if start + unique == start + other {
        assert((start + unique).skip(start.len() as int) =~= unique);
        assert((start + other).skip(start.len() as int) =~= other);
    }
}

} // verus!
