//! The command line: the run mode, the search paths, the host and group
//! filters and the connection defaults, read from the program's arguments.
//! Reading the environment and checking that paths exist is left to the
//! caller, which hands in what it found.
use vstd::prelude::*;
use crate::text::{
    is_text,
    join,
    parse_i64,
    parse_usize,
    pieces,
    signed_value,
    split_on,
    unsigned_value,
};

verus! {

pub const CLI_MODE_UNSET: u32 = 0;

pub const CLI_MODE_SYNTAX: u32 = 1;

pub const CLI_MODE_LOCAL: u32 = 2;

pub const CLI_MODE_CHECK_LOCAL: u32 = 3;

pub const CLI_MODE_SSH: u32 = 4;

pub const CLI_MODE_CHECK_SSH: u32 = 5;

pub const CLI_MODE_SHOW: u32 = 6;

/// The settings read from the command line.
pub struct CliParser {
    pub playbook_paths: Vec<String>,
    pub inventory_paths: Vec<String>,
    pub role_paths: Vec<String>,
    pub inventory_set: bool,
    pub playbook_set: bool,
    pub mode: u32,
    pub needs_help: bool,
    pub hosts: Vec<String>,
    pub groups: Vec<String>,
    pub batch_size: Option<usize>,
    pub default_user: String,
    pub default_port: i64,
    pub threads: usize,
    pub verbosity: u32,
}

/// The mode named by `s`.
pub open spec fn mode_of(s: Seq<char>) -> Option<u32> {
    if s == "local"@ {
        Some(CLI_MODE_LOCAL)
    } else if s == "check-local"@ {
        Some(CLI_MODE_CHECK_LOCAL)
    } else if s == "ssh"@ {
        Some(CLI_MODE_SSH)
    } else if s == "check-ssh"@ {
        Some(CLI_MODE_CHECK_SSH)
    } else if s == "syntax"@ {
        Some(CLI_MODE_SYNTAX)
    } else if s == "show"@ {
        Some(CLI_MODE_SHOW)
    } else {
        None
    }
}

/// The texts of a list of strings.
pub open spec fn texts(v: Seq<String>) -> Seq<Seq<char>> {
    v.map_values(|p: String| p@)
}

/// Whether a mode works on the local machine only.
pub open spec fn is_local_mode(mode: u32) -> bool {
    mode == CLI_MODE_LOCAL || mode == CLI_MODE_CHECK_LOCAL
}

/// The flags that must be followed by a value.
pub open spec fn takes_value(s: Seq<char>) -> bool {
    s == "--playbook"@ || s == "-p"@ || s == "--roles"@ || s == "-r"@ || s == "--inventory"@ || s
        == "-i"@ || s == "--user"@ || s == "-u"@ || s == "--groups"@ || s == "--hosts"@ || s
        == "--batch-size"@ || s == "--threads"@ || s == "-t"@ || s == "--port"@
}

/// The lengths of the flag, mode and help texts, and the characters that
/// tell apart those of equal length.
proof fn lemma_flag_texts()
    ensures
        "--playbook"@.len() == 10,
        "-p"@.len() == 2,
        "--roles"@.len() == 7,
        "-r"@.len() == 2,
        "--inventory"@.len() == 11,
        "-i"@.len() == 2,
        "--user"@.len() == 6,
        "-u"@.len() == 2,
        "--groups"@.len() == 8,
        "--hosts"@.len() == 7,
        "--batch-size"@.len() == 12,
        "--threads"@.len() == 9,
        "-t"@.len() == 2,
        "--port"@.len() == 6,
        "local"@.len() == 5,
        "check-local"@.len() == 11,
        "ssh"@.len() == 3,
        "check-ssh"@.len() == 9,
        "syntax"@.len() == 6,
        "show"@.len() == 4,
        "-v"@.len() == 2,
        "-vv"@.len() == 3,
        "-vvv"@.len() == 4,
        "--help"@.len() == 6,
        "-p"@[1] == 'p',
        "-r"@[1] == 'r',
        "-i"@[1] == 'i',
        "-u"@[1] == 'u',
        "-t"@[1] == 't',
        "-v"@[1] == 'v',
        "--user"@[2] == 'u',
        "--port"@[2] == 'p',
        "--help"@[2] == 'h',
        "--roles"@[2] == 'r',
        "--hosts"@[2] == 'h',
        "--help"@[0] == '-',
        "syntax"@[0] == 's',
        !takes_value("-v"@),
        !takes_value("-vv"@),
        !takes_value("-vvv"@),
        !takes_value("--help"@),
        mode_of("--help"@) is None,
{
    reveal_strlit("--playbook");
    reveal_strlit("-p");
    reveal_strlit("--roles");
    reveal_strlit("-r");
    reveal_strlit("--inventory");
    reveal_strlit("-i");
    reveal_strlit("--user");
    reveal_strlit("-u");
    reveal_strlit("--groups");
    reveal_strlit("--hosts");
    reveal_strlit("--batch-size");
    reveal_strlit("--threads");
    reveal_strlit("-t");
    reveal_strlit("--port");
    reveal_strlit("local");
    reveal_strlit("check-local");
    reveal_strlit("ssh");
    reveal_strlit("check-ssh");
    reveal_strlit("syntax");
    reveal_strlit("show");
    reveal_strlit("-v");
    reveal_strlit("-vv");
    reveal_strlit("-vvv");
    reveal_strlit("--help");
    assert("--playbook"@.len() == 10);
    assert("-p"@.len() == 2);
    assert("--roles"@.len() == 7);
    assert("-r"@.len() == 2);
    assert("--inventory"@.len() == 11);
    assert("-i"@.len() == 2);
    assert("--user"@.len() == 6);
    assert("-u"@.len() == 2);
    assert("--groups"@.len() == 8);
    assert("--hosts"@.len() == 7);
    assert("--batch-size"@.len() == 12);
    assert("--threads"@.len() == 9);
    assert("-t"@.len() == 2);
    assert("--port"@.len() == 6);
    assert("local"@.len() == 5);
    assert("check-local"@.len() == 11);
    assert("ssh"@.len() == 3);
    assert("check-ssh"@.len() == 9);
    assert("syntax"@.len() == 6);
    assert("show"@.len() == 4);
    assert("-v"@.len() == 2);
    assert("-vv"@.len() == 3);
    assert("-vvv"@.len() == 4);
    assert("--help"@.len() == 6);
    assert("-p"@[1] == 'p');
    assert("-r"@[1] == 'r');
    assert("-i"@[1] == 'i');
    assert("-u"@[1] == 'u');
    assert("-t"@[1] == 't');
    assert("-v"@[1] == 'v');
    assert("--user"@[2] == 'u');
    assert("--port"@[2] == 'p');
    assert("--help"@[2] == 'h');
    assert("--roles"@[2] == 'r');
    assert("--hosts"@[2] == 'h');
    assert("--help"@[0] == '-');
    assert("syntax"@[0] == 's');
}

/// Whether the argument at `j` stands where a flag is read: the first after
/// the mode does, and after a flag only `-v` leaves the next one a flag; the
/// others take it as their value.
pub open spec fn flag_slot(args: Seq<String>, j: int) -> bool
    decreases j,
{
    if j <= 2 {
        true
    } else if flag_slot(args, j - 1) {
        args[j - 1]@ == "-v"@
    } else {
        true
    }
}

/// The verbosity flags, which never fail.
pub open spec fn verbosity_flag(s: Seq<char>) -> bool {
    s == "-v"@ || s == "-vv"@ || s == "-vvv"@
}

/// A flag that cannot fail with `value` after it, whatever was read before.
pub open spec fn plain_flag_ok(flag: Seq<char>, value: Seq<char>) -> bool {
    flag == "--playbook"@ || flag == "-p"@ || flag == "--roles"@ || flag == "-r"@ || flag
        == "--user"@ || flag == "-u"@ || flag == "--groups"@ || flag == "--hosts"@ || ((flag
        == "--threads"@ || flag == "-t"@) && unsigned_value(value, usize::MAX as int) is Some)
        || (flag == "--port"@ && signed_value(value) is Some)
}

/// Every flag after the mode is a verbosity flag, or one of the flags above
/// followed by a value it accepts.
pub open spec fn plain_flags_ok(args: Seq<String>) -> bool {
    forall|j: int|
        2 <= j < args.len() && #[trigger] flag_slot(args, j) ==> verbosity_flag(args[j]@) || (j
            + 1 < args.len() && plain_flag_ok(args[j]@, args[j + 1]@))
}

/// The last argument is a flag that needs a value, and no `--help` stands
/// at a flag position before it.
pub open spec fn ends_without_value(args: Seq<String>) -> bool {
    &&& args.len() >= 3
    &&& flag_slot(args, args.len() - 1)
    &&& takes_value(args[args.len() - 1]@)
    &&& forall|j: int|
        2 <= j < args.len() - 1 && #[trigger] flag_slot(args, j) ==> args[j]@ != "--help"@
}

/// Whether `value` names a mode.
pub fn is_cli_mode_valid(value: &String) -> (r: bool)
    ensures
        r == (mode_of(value@) is Some),
{
    match cli_mode_from_string(value) {
        Ok(_) => true,
        Err(_) => false,
    }
}

/// The mode that `s` names, or an error naming `s`.
pub fn cli_mode_from_string(s: &String) -> (r: Result<u32, String>)
    ensures
        mode_of(s@) matches Some(m) ==> r == Ok::<u32, String>(m),
        mode_of(s@) is None ==> (r matches Err(e) && e@ == "invalid mode: "@ + s@),
{
    if is_text(s, "local") {
        Ok(CLI_MODE_LOCAL)
    } else if is_text(s, "check-local") {
        Ok(CLI_MODE_CHECK_LOCAL)
    } else if is_text(s, "ssh") {
        Ok(CLI_MODE_SSH)
    } else if is_text(s, "check-ssh") {
        Ok(CLI_MODE_CHECK_SSH)
    } else if is_text(s, "syntax") {
        Ok(CLI_MODE_SYNTAX)
    } else if is_text(s, "show") {
        Ok(CLI_MODE_SHOW)
    } else {
        Err(join("invalid mode: ", s.as_str()))
    }
}

/// The pieces of `value` between colons.
pub fn split_string(value: &String) -> (r: Result<Vec<String>, String>)
    ensures
        r matches Ok(v) && texts(v@) == pieces(value@, ':'),
{
    Ok(split_on(value.as_str(), ':'))
}

/// The paths listed in `value`, separated by colons. Whether they exist is
/// for the caller to check.
pub fn parse_paths(value: &String) -> (r: Vec<String>)
    ensures
        texts(r@) == pieces(value@, ':'),
{
    split_on(value.as_str(), ':')
}

/// The position of the first path that does not exist, given whether each
/// one does; `None` when all of them do.
pub fn first_missing(exists: &Vec<bool>) -> (r: Option<usize>)
    ensures
        r is None <==> forall|j: int| 0 <= j < exists@.len() ==> exists@[j],
        r matches Some(i) ==> i < exists@.len() && !exists@[i as int] && forall|j: int|
            0 <= j < i ==> exists@[j],
{
    let mut i: usize = 0;
    while i < exists.len()
        invariant
            i <= exists@.len(),
            forall|j: int| 0 <= j < i ==> exists@[j],
        decreases exists@.len() - i,
    {
        if !exists[i] {
            return Some(i);
        }
        i = i + 1;
    }
    None
}

fn append_all(dst: &mut Vec<String>, items: Vec<String>)
    ensures
        texts(final(dst)@) == texts(old(dst)@) + texts(items@),
{
    let ghost start = texts(dst@);
    let mut i: usize = 0;
    while i < items.len()
        invariant
            i <= items@.len(),
            texts(dst@) == start + texts(items@.subrange(0, i as int)),
        decreases items@.len() - i,
    {
        let ghost before = dst@;
        dst.push(items[i].clone());
        proof {
            assert(texts(dst@) =~= texts(before).push(items@[i as int]@));
            assert(texts(items@.subrange(0, i + 1)) =~= texts(items@.subrange(0, i as int)).push(
                items@[i as int]@,
            ));
        }
        i = i + 1;
    }
    proof {
        assert(items@.subrange(0, i as int) =~= items@);
    }
}

/// The default user: `$JET_SSH_USER`, else `$USER`, else `root`.
pub open spec fn default_user_of(jet_ssh_user: Option<String>, user: Option<String>) -> Seq<
    char,
> {
    match jet_ssh_user {
        Some(u) => u@,
        None => match user {
            Some(u) => u@,
            None => "root"@,
        },
    }
}

/// The default port: `$JET_SSH_PORT` when it is a number, else 22.
pub open spec fn port_of(jet_ssh_port: Option<String>) -> i64 {
    match jet_ssh_port {
        Some(p) => match signed_value(p@) {
            Some(n) => n as i64,
            None => 22,
        },
        None => 22,
    }
}

/// The default thread count: `$JET_THREADS` when it is a number, else 20.
pub open spec fn threads_of(jet_threads: Option<String>) -> usize {
    match jet_threads {
        Some(t) => match unsigned_value(t@, usize::MAX as int) {
            Some(n) => n as usize,
            None => 20,
        },
        None => 20,
    }
}

impl CliParser {
    /// Settings before any argument is read, with the defaults taken from the
    /// environment values given: the user from `$JET_SSH_USER` or `$USER`
    /// (else `root`), the port from `$JET_SSH_PORT` (else, or when it is not
    /// a number, 22), the thread count from `$JET_THREADS` (else, or when it
    /// is not a number, 20).
    pub fn new(
        jet_ssh_user: Option<String>,
        user: Option<String>,
        jet_ssh_port: Option<String>,
        jet_threads: Option<String>,
    ) -> (r: Self)
        ensures
            r.default_user@ == default_user_of(jet_ssh_user, user),
            r.default_port == port_of(jet_ssh_port),
            r.threads == threads_of(jet_threads),
            r.mode == CLI_MODE_UNSET,
            !r.needs_help,
            !r.inventory_set,
            !r.playbook_set,
            r.batch_size is None,
            r.verbosity == 0,
            r.playbook_paths@.len() == 0,
            r.inventory_paths@.len() == 0,
            r.role_paths@.len() == 0,
            r.hosts@.len() == 0,
            r.groups@.len() == 0,
    {
        let default_user = match jet_ssh_user {
            Some(u) => u,
            None => match user {
                Some(u) => u,
                None => "root".to_string(),
            },
        };
        let default_port: i64 = match jet_ssh_port {
            Some(p) => match parse_i64(p.as_str()) {
                Some(n) => n,
                None => 22,
            },
            None => 22,
        };
        let threads: usize = match jet_threads {
            Some(t) => match parse_usize(t.as_str()) {
                Some(n) => n,
                None => 20,
            },
            None => 20,
        };
        CliParser {
            playbook_paths: Vec::new(),
            inventory_paths: Vec::new(),
            role_paths: Vec::new(),
            inventory_set: false,
            playbook_set: false,
            mode: CLI_MODE_UNSET,
            needs_help: false,
            hosts: Vec::new(),
            groups: Vec::new(),
            batch_size: None,
            default_user,
            default_port,
            threads,
            verbosity: 0,
        }
    }

    /// Checks the settings against each other; every combination read so
    /// far is accepted.
    fn validate_internal_consistency(&mut self) -> (r: Result<(), String>)
        ensures
            r is Ok,
            *final(self) == *old(self),
    {
        Ok(())
    }

    /// Sets the mode that `value` names, or fails naming `value`.
    pub fn store_mode_value(&mut self, value: &String) -> (r: Result<(), String>)
        ensures
            mode_of(value@) matches Some(m) ==> r is Ok && final(self).mode == m,
            mode_of(value@) is None ==> (r matches Err(e) && e@ == "jetp mode ("@ + value@
                + ") is not valid, see --help"@) && final(self).mode == old(self).mode,
            final(self).threads == old(self).threads,
            final(self).playbook_set == old(self).playbook_set,
            final(self).needs_help == old(self).needs_help,
    {
        if is_cli_mode_valid(value) {
            match cli_mode_from_string(value) {
                Ok(m) => {
                    self.mode = m;
                    return Ok(());
                },
                Err(_) => {},
            }
        }
        let head = join("jetp mode (", value.as_str());
        Err(join(head.as_str(), ") is not valid, see --help"))
    }

    /// Adds the colon-separated playbook paths of `value`.
    pub fn append_playbook_value(&mut self, value: &String) -> (r: Result<(), String>)
        ensures
            r is Ok,
            final(self).playbook_set,
            texts(final(self).playbook_paths@) == texts(old(self).playbook_paths@) + pieces(
                value@,
                ':',
            ),
            final(self).mode == old(self).mode,
            final(self).needs_help == old(self).needs_help,
            final(self).threads == old(self).threads,
    {
        self.playbook_set = true;
        let paths = parse_paths(value);
        append_all(&mut self.playbook_paths, paths);
        Ok(())
    }

    /// Adds the colon-separated role search paths of `value`.
    pub fn append_roles_value(&mut self, value: &String) -> (r: Result<(), String>)
        ensures
            r is Ok,
            texts(final(self).role_paths@) == texts(old(self).role_paths@) + pieces(value@, ':'),
            final(self).mode == old(self).mode,
            final(self).needs_help == old(self).needs_help,
            final(self).threads == old(self).threads,
            final(self).playbook_set == old(self).playbook_set,
    {
        let paths = parse_paths(value);
        append_all(&mut self.role_paths, paths);
        Ok(())
    }

    /// Adds the colon-separated inventory paths of `value`; a local mode
    /// takes no inventory.
    pub fn append_inventory_value(&mut self, value: &String) -> (r: Result<(), String>)
        ensures
            final(self).inventory_set,
            is_local_mode(old(self).mode) ==> (r matches Err(e) && e@
                == "--inventory cannot be specified for local modes"@),
            is_local_mode(old(self).mode) ==> final(self).inventory_paths@
                == old(self).inventory_paths@,
            !is_local_mode(old(self).mode) ==> r is Ok && texts(final(self).inventory_paths@)
                == texts(old(self).inventory_paths@) + pieces(value@, ':'),
            final(self).mode == old(self).mode,
            final(self).needs_help == old(self).needs_help,
            final(self).threads == old(self).threads,
            final(self).playbook_set == old(self).playbook_set,
    {
        self.inventory_set = true;
        if self.mode == CLI_MODE_LOCAL || self.mode == CLI_MODE_CHECK_LOCAL {
            return Err("--inventory cannot be specified for local modes".to_string());
        }
        let paths = parse_paths(value);
        append_all(&mut self.inventory_paths, paths);
        Ok(())
    }

    /// Sets the group filter to the colon-separated names of `value`.
    pub fn store_groups_value(&mut self, value: &String) -> (r: Result<(), String>)
        ensures
            r is Ok,
            texts(final(self).groups@) == pieces(value@, ':'),
            final(self).mode == old(self).mode,
            final(self).needs_help == old(self).needs_help,
            final(self).threads == old(self).threads,
            final(self).playbook_set == old(self).playbook_set,
    {
        match split_string(value) {
            Ok(values) => {
                self.groups = values;
            },
            Err(e) => {
                return Err(join("--groups ", e.as_str()));
            },
        }
        Ok(())
    }

    /// Sets the host filter to the colon-separated names of `value`.
    pub fn store_hosts_value(&mut self, value: &String) -> (r: Result<(), String>)
        ensures
            r is Ok,
            texts(final(self).hosts@) == pieces(value@, ':'),
            final(self).mode == old(self).mode,
            final(self).needs_help == old(self).needs_help,
            final(self).threads == old(self).threads,
            final(self).playbook_set == old(self).playbook_set,
    {
        match split_string(value) {
            Ok(values) => {
                self.hosts = values;
            },
            Err(e) => {
                return Err(join("--hosts ", e.as_str()));
            },
        }
        Ok(())
    }

    /// Sets the default user.
    pub fn store_default_user_value(&mut self, value: &String) -> (r: Result<(), String>)
        ensures
            r is Ok,
            final(self).default_user == *value,
            final(self).mode == old(self).mode,
            final(self).needs_help == old(self).needs_help,
            final(self).threads == old(self).threads,
            final(self).playbook_set == old(self).playbook_set,
    {
        self.default_user = value.clone();
        Ok(())
    }

    /// Sets the batch size, which may be given once and must be a number.
    pub fn store_batch_size_value(&mut self, value: &String) -> (r: Result<(), String>)
        ensures
            old(self).batch_size is Some ==> (r matches Err(e) && e@
                == "--batch-size has been specified already"@) && *final(self) == *old(self),
            old(self).batch_size is None && unsigned_value(value@, usize::MAX as int) is None ==> (
            r matches Err(e) && e@ == "--batch-size: invalid value"@) && *final(self)
                == *old(self),
            old(self).batch_size is None ==> (unsigned_value(value@, usize::MAX as int) matches Some(
                n,
            ) ==> r is Ok && final(self).batch_size == Some(n as usize)),
            final(self).mode == old(self).mode,
            final(self).needs_help == old(self).needs_help,
            final(self).threads == old(self).threads,
            final(self).playbook_set == old(self).playbook_set,
    {
        if self.batch_size.is_some() {
            return Err("--batch-size has been specified already".to_string());
        }
        match parse_usize(value.as_str()) {
            Some(n) => {
                self.batch_size = Some(n);
                Ok(())
            },
            None => Err("--batch-size: invalid value".to_string()),
        }
    }

    /// Sets the thread count, which must be a number.
    pub fn store_threads_value(&mut self, value: &String) -> (r: Result<(), String>)
        ensures
            unsigned_value(value@, usize::MAX as int) matches Some(n) ==> r is Ok
                && final(self).threads == n,
            unsigned_value(value@, usize::MAX as int) is None ==> (r matches Err(e) && e@
                == "--threads: invalid value"@) && final(self).threads == old(self).threads,
            final(self).mode == old(self).mode,
            final(self).needs_help == old(self).needs_help,
            final(self).playbook_set == old(self).playbook_set,
    {
        match parse_usize(value.as_str()) {
            Some(n) => {
                self.threads = n;
                Ok(())
            },
            None => Err("--threads: invalid value".to_string()),
        }
    }

    /// Sets the default port, which must be a number.
    pub fn store_port_value(&mut self, value: &String) -> (r: Result<(), String>)
        ensures
            signed_value(value@) matches Some(n) ==> r is Ok && final(self).default_port == n,
            signed_value(value@) is None ==> (r matches Err(e) && e@ == "--port: invalid value"@)
                && final(self).default_port == old(self).default_port,
            final(self).mode == old(self).mode,
            final(self).needs_help == old(self).needs_help,
            final(self).threads == old(self).threads,
            final(self).playbook_set == old(self).playbook_set,
    {
        match parse_i64(value.as_str()) {
            Some(n) => {
                self.default_port = n;
                Ok(())
            },
            None => Err("--port: invalid value".to_string()),
        }
    }

    /// Raises the verbosity by `amount`, stopping at the largest `u32`.
    pub fn increase_verbosity(&mut self, amount: u32) -> (r: Result<(), String>)
        ensures
            r is Ok,
            final(self).verbosity == if old(self).verbosity + amount <= u32::MAX {
                (old(self).verbosity + amount) as u32
            } else {
                u32::MAX
            },
            final(self).mode == old(self).mode,
            final(self).needs_help == old(self).needs_help,
            final(self).threads == old(self).threads,
            final(self).playbook_set == old(self).playbook_set,
    {
        if self.verbosity > u32::MAX - amount {
            self.verbosity = u32::MAX;
        } else {
            self.verbosity = self.verbosity + amount;
        }
        Ok(())
    }

    /// Applies one flag with the argument after it, if any.
    fn apply_flag(&mut self, flag: &String, value: Option<&String>) -> (r: Result<(), String>)
        ensures
            final(self).mode == old(self).mode,
            final(self).playbook_set == old(self).playbook_set || (r is Ok && (flag@
                == "--playbook"@ || flag@ == "-p"@)),
            value is None && takes_value(flag@) ==> (r matches Err(e) && e@
                == "missing value for flag: "@ + flag@),
            verbosity_flag(flag@) ==> r is Ok,
            value matches Some(v) ==> (plain_flag_ok(flag@, v@) ==> r is Ok),
            final(self).needs_help == old(self).needs_help,
    {
        proof {
            lemma_flag_texts();
        }
        if is_text(flag, "-v") {
            return self.increase_verbosity(1);
        } else if is_text(flag, "-vv") {
            return self.increase_verbosity(2);
        } else if is_text(flag, "-vvv") {
            return self.increase_verbosity(3);
        }
        let known = is_text(flag, "--playbook") || is_text(flag, "-p") || is_text(flag, "--roles")
            || is_text(flag, "-r") || is_text(flag, "--inventory") || is_text(flag, "-i")
            || is_text(flag, "--user") || is_text(flag, "-u") || is_text(flag, "--groups")
            || is_text(flag, "--hosts") || is_text(flag, "--batch-size") || is_text(
            flag,
            "--threads",
        ) || is_text(flag, "-t") || is_text(flag, "--port");
        if !known {
            return Err(join("invalid flag: ", flag.as_str()));
        }
        let value = match value {
            Some(v) => v,
            None => {
                return Err(join("missing value for flag: ", flag.as_str()));
            },
        };
        if is_text(flag, "--playbook") || is_text(flag, "-p") {
            self.append_playbook_value(value)
        } else if is_text(flag, "--roles") || is_text(flag, "-r") {
            self.append_roles_value(value)
        } else if is_text(flag, "--inventory") || is_text(flag, "-i") {
            self.append_inventory_value(value)
        } else if is_text(flag, "--user") || is_text(flag, "-u") {
            self.store_default_user_value(value)
        } else if is_text(flag, "--groups") {
            self.store_groups_value(value)
        } else if is_text(flag, "--hosts") {
            self.store_hosts_value(value)
        } else if is_text(flag, "--batch-size") {
            self.store_batch_size_value(value)
        } else if is_text(flag, "--threads") || is_text(flag, "-t") {
            self.store_threads_value(value)
        } else {
            self.store_port_value(value)
        }
    }

    /// Reads the program's arguments: the first names the program, the second
    /// the mode (or `--help`), then flags, each but `-v` followed by its
    /// value. `--help` where a flag stands ends the reading. Local, syntax and
    /// show modes then run on one thread; without a mode, help is needed.
    /// Role paths implied by the playbooks are for the caller to add.
    pub fn parse(&mut self, args: &Vec<String>) -> (r: Result<(), String>)
        ensures
            args@.len() >= 2 && args@[1]@ == "--help"@ ==> r is Ok && final(self).needs_help
                && final(self).mode == old(self).mode,
            args@.len() >= 2 && args@[1]@ != "--help"@ && mode_of(args@[1]@) is None ==> (
            r matches Err(e) && e@ == "jetp mode ("@ + args@[1]@ + ") is not valid, see --help"@)
                && final(self).mode == old(self).mode,
            args@.len() >= 2 && args@[1]@ != "--help"@ ==> (mode_of(args@[1]@) matches Some(m)
                ==> final(self).mode == m),
            args@.len() < 2 && old(self).mode == CLI_MODE_UNSET ==> r is Ok
                && final(self).needs_help,
            args@.len() < 2 ==> final(self).mode == old(self).mode,
            args@.len() >= 2 && mode_of(args@[1]@) is Some && ends_without_value(args@) ==> r is Err,
            args@.len() >= 2 && mode_of(args@[1]@) is Some && plain_flags_ok(args@) ==> r is Ok
                && final(self).needs_help == old(self).needs_help,
            args@.len() == 3 && mode_of(args@[1]@) is Some && takes_value(args@[2]@) ==> (
            r matches Err(e) && e@ == "missing value for flag: "@ + args@[2]@),
            r is Ok && !final(self).needs_help ==> final(self).mode != CLI_MODE_UNSET,
            r is Ok && !final(self).needs_help && (is_local_mode(final(self).mode)
                || final(self).mode == CLI_MODE_SYNTAX || final(self).mode == CLI_MODE_SHOW)
                ==> final(self).threads == 1,
    {
        let mut next_is_value = false;
        let mut i: usize = 0;
        while i < args.len()
            invariant
                i <= args@.len(),
                args@.len() >= 2 && i >= 2 ==> args@[1]@ != "--help"@ && mode_of(args@[1]@)
                    == Some(self.mode),
                i < 2 ==> self.mode == old(self).mode,
                i <= 2 ==> !next_is_value,
                args@.len() == 3 && mode_of(args@[1]@) is Some && takes_value(args@[2]@) ==> i
                    <= 2,
                i >= 2 ==> (next_is_value <==> !flag_slot(args@, i as int)),
                args@.len() >= 2 && mode_of(args@[1]@) is Some && ends_without_value(args@) ==> i
                    < args@.len(),
                self.needs_help == old(self).needs_help,
            decreases args@.len() - i,
        {
            proof {
                lemma_flag_texts();
            }
            let argument = &args[i];
            i = i + 1;
            if i == 1 {
                continue ;
            }
            if i == 2 {
                if is_text(argument, "--help") {
                    self.needs_help = true;
                    return Ok(());
                }
                self.store_mode_value(argument)?;
                continue ;
            }
            if !next_is_value {
                if is_text(argument, "--help") {
                    self.needs_help = true;
                    return Ok(());
                }
                let value = if i < args.len() {
                    Some(&args[i])
                } else {
                    None
                };
                self.apply_flag(argument, value)?;
                if !is_text(argument, "-v") {
                    next_is_value = true;
                }
            } else {
                next_is_value = false;
            }
        }
        if self.mode == CLI_MODE_LOCAL || self.mode == CLI_MODE_CHECK_LOCAL || self.mode
            == CLI_MODE_SYNTAX || self.mode == CLI_MODE_SHOW {
            self.threads = 1;
        } else if self.mode == CLI_MODE_UNSET {
            self.needs_help = true;
        }
        self.validate_internal_consistency()
    }
}

} // verus!
