//! The options a caller supplies, and the decisions behind validating them:
//! when an existing output file calls for confirmation, and how a console
//! reply is read as yes or no.

use vstd::prelude::*;
use vstd::string::*;

verus! {

/// The options of one invocation, already parsed and validated upstream.
pub struct Args {
    pub outfile: String,
    pub overwrite: bool,
    pub silent: bool,
    pub special: bool,
    pub clipboard: bool,
    pub length: usize,
    pub number: usize,
}

/// Failures of argument validation.
pub enum ArgError {
    OutputFound(String),
}

pub type ArgResult = Result<(), ArgError>;

/// What the confirmation loop does with one line read from the console.
#[derive(Clone, Copy, Debug, PartialEq, Eq, Structural)]
pub enum ReplyAction {
    Accept(bool),
    AskAgain,
}

pub open spec fn either_case(c: char, lower: char, upper: char) -> bool {
    c == lower || c == upper
}

/// The reply reads as yes: `y` or `yes`, in any mixture of cases.
pub open spec fn is_yes_word(s: Seq<char>) -> bool {
    ||| s.len() == 1 && either_case(s[0], 'y', 'Y')
    ||| s.len() == 3 && either_case(s[0], 'y', 'Y') && either_case(s[1], 'e', 'E') && either_case(
        s[2],
        's',
        'S',
    )
}

/// The reply reads as no: `n` or `no`, in any mixture of cases.
pub open spec fn is_no_word(s: Seq<char>) -> bool {
    ||| s.len() == 1 && either_case(s[0], 'n', 'N')
    ||| s.len() == 2 && either_case(s[0], 'n', 'N') && either_case(s[1], 'o', 'O')
}

/// The decision taken for one console line: an overlong line refuses, an
/// empty reply takes the default, a yes or no word decides, and anything
/// else has the caller ask again.
pub open spec fn spec_reply_decision(bytes_read: int, reply: Seq<char>, default_yes: bool)
    -> ReplyAction {
    if bytes_read > 5 {
        ReplyAction::Accept(false)
    } else if reply.len() == 0 {
        ReplyAction::Accept(default_yes)
    } else if is_yes_word(reply) {
        ReplyAction::Accept(true)
    } else if is_no_word(reply) {
        ReplyAction::Accept(false)
    } else {
        ReplyAction::AskAgain
    }
}

/// Decides what one line read from the console means. `reply` is the line
/// with surrounding whitespace removed; `bytes_read` is the raw byte count
/// the read reported, and a count above five refuses outright.
pub fn reply_decision(bytes_read: usize, reply: &str, default_yes: bool) -> (a: ReplyAction)
    ensures
        a == spec_reply_decision(bytes_read as int, reply@, default_yes),
{
    if bytes_read > 5 {
        return ReplyAction::Accept(false);
    }
    let n = reply.unicode_len();
    if n == 0 {
        ReplyAction::Accept(default_yes)
    } else if n == 1 {
        let c0 = reply.get_char(0);
        if c0 == 'y' || c0 == 'Y' {
            ReplyAction::Accept(true)
        } else if c0 == 'n' || c0 == 'N' {
            ReplyAction::Accept(false)
        } else {
            ReplyAction::AskAgain
        }
    } else if n == 2 {
        let c0 = reply.get_char(0);
        let c1 = reply.get_char(1);
        if (c0 == 'n' || c0 == 'N') && (c1 == 'o' || c1 == 'O') {
            ReplyAction::Accept(false)
        } else {
            ReplyAction::AskAgain
        }
    } else if n == 3 {
        let c0 = reply.get_char(0);
        let c1 = reply.get_char(1);
        let c2 = reply.get_char(2);
        if (c0 == 'y' || c0 == 'Y') && (c1 == 'e' || c1 == 'E') && (c2 == 's' || c2 == 'S') {
            ReplyAction::Accept(true)
        } else {
            ReplyAction::AskAgain
        }
    } else {
        ReplyAction::AskAgain
    }
}

/// How the default answer offered by a prompt is read: its first character
/// decides, in either case; an empty default, or one that starts with
/// neither a yes nor a no character, offers no default at all.
pub open spec fn spec_default_answer(s: Seq<char>) -> Option<bool> {
    if s.len() == 0 {
        None
    } else if either_case(s[0], 'y', 'Y') {
        Some(true)
    } else if either_case(s[0], 'n', 'N') {
        Some(false)
    } else {
        None
    }
}

/// Reads the default answer a prompt offers.
pub fn default_answer(default: &str) -> (d: Option<bool>)
    ensures
        d == spec_default_answer(default@),
{
    if default.unicode_len() == 0 {
        return None;
    }
    let c0 = default.get_char(0);
    if c0 == 'y' || c0 == 'Y' {
        Some(true)
    } else if c0 == 'n' || c0 == 'N' {
        Some(false)
    } else {
        None
    }
}

/// Character-for-character string equality, proved rather than assumed.
fn str_eq(a: &str, b: &str) -> (r: bool)
    ensures
        r == (a@ == b@),
{
    let na = a.unicode_len();
    let nb = b.unicode_len();
    if na != nb {
        return false;
    }
    let mut i: usize = 0;
    while i < na
        invariant
            i <= na,
            na == a@.len(),
            nb == b@.len(),
            na == nb,
            forall|j: int| 0 <= j < i ==> a@[j] == b@[j],
        decreases na - i,
    {
        if a.get_char(i) != b.get_char(i) {
            return false;
        }
        i = i + 1;
    }
    proof {
        assert(a@ =~= b@);
    }
    true
}

impl Args {
    /// Whether validation must ask before writing: an output file is named,
    /// it already exists on disk (`file_exists`, established by the caller),
    /// it is not the null device, and overwriting was not already granted.
    pub fn needs_confirmation(&self, file_exists: bool) -> (b: bool)
        ensures
            b == (self.outfile@.len() > 0 && file_exists && self.outfile@ != "/dev/null"@
                && !self.overwrite),
    {
        let outfile = self.outfile.as_str();
        !outfile.is_empty() && file_exists && !str_eq(outfile, "/dev/null") && !self.overwrite
    }
}

} // verus!
