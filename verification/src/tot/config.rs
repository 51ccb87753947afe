//! The tunnel's configuration.
use vstd::prelude::*;
use crate::text;

verus! {

/// The tunnel's configuration, read once at the start.
#[derive(Debug)]
pub struct Config {
    /// The address to listen at.
    pub listen: String,
    /// The inbox: all of the file system that is written to.
    pub maildir_inbox: String,
    /// The nodes that browsers are let through to.
    pub nabla: Vec<NablaNode>,
    /// For development: the mail servers that browsers are let through to.
    pub fatmama: Vec<NablaNode>,
    /// How many requests a second a connection may bring; zero for any number.
    pub intake_max_msgs_per_sec: u32,
    /// The largest request, in bytes.
    pub max_message_bytes: usize,
}

/// A node that browsers are let through to.
#[derive(Debug)]
pub struct NablaNode {
    pub name: String,
    pub addr: String,
}

/// How many requests a second a connection may bring, where nothing is configured.
pub fn default_intake_rate() -> (r: u32)
    ensures
        r == 8,
{
    8
}

/// The largest request, in bytes, where nothing is configured.
pub fn default_max_message_bytes() -> (r: usize)
    ensures
        r == 262_144,
{
    262_144
}

/// What came of reading the configuration.
pub enum ConfigText {
    /// The file could not be read.
    Unreadable(String),
    /// Its text is no configuration.
    Unparsable(String),
    Parsed(Config),
}

/// What is wrong with a configuration, if anything.
pub open spec fn config_error(c: Config) -> Option<Seq<char>> {
    if c.nabla@.len() == 0 {
        Some("config: [[nabla]] is empty — no attested Nabla nodes"@)
    } else if c.max_message_bytes == 0 {
        Some("config: max_message_bytes must be greater than 0"@)
    } else {
        None
    }
}

/// What is said of a configuration at `path` that cannot be used.
pub open spec fn load_error(path: Seq<char>, t: ConfigText) -> Option<Seq<char>> {
    match t {
        ConfigText::Unreadable(e) => Some("read config "@ + path + ": "@ + e@),
        ConfigText::Unparsable(e) => Some("parse config "@ + path + ": "@ + e@),
        ConfigText::Parsed(c) => config_error(c),
    }
}

fn about(what: &str, path: &str, e: &str) -> (r: String)
    ensures
        r@ == what@ + path@ + ": "@ + e@,
{
    let mut m = String::from_str(what);
    m.append(path);
    m.append(": ");
    m.append(e);
    m
}

/// What is said of an index that no node has.
pub open spec fn no_node(what: Seq<char>, idx: nat, set: Seq<char>, len: nat) -> Seq<char> {
    what + " index "@ + text::dec(idx) + " outside the "@ + set + " set (0.."@ + text::dec(len) + ")"@
}

fn refuse_index(what: &str, idx: usize, set: &str, len: usize) -> (r: String)
    ensures
        r@ == no_node(what@, idx as nat, set@, len as nat),
{
    let mut m = String::from_str(what);
    m.append(" index ");
    text::push_dec(&mut m, idx as u64);
    m.append(" outside the ");
    m.append(set);
    m.append(" set (0..");
    text::push_dec(&mut m, len as u64);
    m.append(")");
    m
}

impl Config {
    /// Takes the configuration that was read from `path`, or says why it cannot be used.
    pub fn load(path: &str, text: ConfigText) -> (r: Result<Config, String>)
        ensures
            match load_error(path@, text) {
                Some(e) => r matches Err(m) && m@ == e,
                None => text matches ConfigText::Parsed(c) && r == Ok::<Config, String>(c),
            },
    {
        match text {
            ConfigText::Unreadable(e) => Err(about("read config ", path, e.as_str())),
            ConfigText::Unparsable(e) => Err(about("parse config ", path, e.as_str())),
            ConfigText::Parsed(c) => match c.validate() {
                Ok(_) => Ok(c),
                Err(e) => Err(e),
            },
        }
    }

    /// Checks the configuration: there are nodes, and requests may have a size.
    pub fn validate(&self) -> (r: Result<(), String>)
        ensures
            match config_error(*self) {
                Some(e) => r matches Err(m) && m@ == e,
                None => r is Ok,
            },
    {
        if self.nabla.len() == 0 {
            return Err(String::from_str("config: [[nabla]] is empty — no attested Nabla nodes"));
        }
        if self.max_message_bytes == 0 {
            return Err(String::from_str("config: max_message_bytes must be greater than 0"));
        }
        Ok(())
    }

    /// The node with an index. There is no other way to name one.
    pub fn nabla_node(&self, idx: usize) -> (r: Result<&NablaNode, String>)
        ensures
            match r {
                Ok(n) => idx < self.nabla@.len() && *n == self.nabla@[idx as int],
                Err(m) => idx >= self.nabla@.len() && m@ == no_node(
                    "nabla"@,
                    idx as nat,
                    "attested"@,
                    self.nabla@.len(),
                ),
            },
    {
        if idx < self.nabla.len() {
            Ok(&self.nabla[idx])
        } else {
            Err(refuse_index("nabla", idx, "attested", self.nabla.len()))
        }
    }

    /// The mail server with an index.
    pub fn fatmama_node(&self, idx: usize) -> (r: Result<&NablaNode, String>)
        ensures
            match r {
                Ok(n) => idx < self.fatmama@.len() && *n == self.fatmama@[idx as int],
                Err(m) => idx >= self.fatmama@.len() && m@ == no_node(
                    "fatmama"@,
                    idx as nat,
                    "configured"@,
                    self.fatmama@.len(),
                ),
            },
    {
        if idx < self.fatmama.len() {
            Ok(&self.fatmama[idx])
        } else {
            Err(refuse_index("fatmama", idx, "configured", self.fatmama.len()))
        }
    }
}


/// A configuration is good if it names a node and lets some request be large enough to hold
/// something.
pub proof fn law_good_configuration(c: Config, path: Seq<char>, e: String)
    ensures
        config_error(c) is None <==> c.nabla@.len() > 0 && c.max_message_bytes > 0,
        c.nabla@.len() == 0 ==> config_error(c) == Some("config: [[nabla]] is empty — no attested Nabla nodes"@),
        c.nabla@.len() > 0 && c.max_message_bytes == 0 ==> config_error(c) == Some(
            "config: max_message_bytes must be greater than 0"@,
        ),
        load_error(path, ConfigText::Parsed(c)) == config_error(c),
        load_error(path, ConfigText::Unreadable(e)) == Some("read config "@ + path + ": "@ + e@),
        load_error(path, ConfigText::Unparsable(e)) == Some("parse config "@ + path + ": "@ + e@),
{
}

/// What is said of an index without a node: the index, and how many nodes there are.
pub proof fn law_missing_node_is_named(what: Seq<char>, idx: nat, set: Seq<char>, len: nat)
    ensures
        text::starts_with(no_node(what, idx, set, len), what + " index "@ + text::dec(idx)),
        text::ends_with(no_node(what, idx, set, len), " outside the "@ + set + " set (0.."@ + text::dec(len) + ")"@),
{
    let a = what + " index "@ + text::dec(idx);
    let b = " outside the "@ + set + " set (0.."@ + text::dec(len) + ")"@;
    lemma_two_parts(a, " outside the "@, set, " set (0.."@, text::dec(len), ")"@);
    text::lemma_put_together(Seq::empty(), a, b);
    text::lemma_put_together(a, b, Seq::empty());
}

proof fn lemma_two_parts(a: Seq<char>, b: Seq<char>, c: Seq<char>, d: Seq<char>, e: Seq<char>, f: Seq<char>)
    ensures
        a + b + c + d + e + f == a + (b + c + d + e + f),
{
    assert(a + b + c + d + e + f =~= a + (b + c + d + e + f));
}

} // verus!
