//! Text produced for the privileged hosts-file write.
//!
//! Writing the rendered document to the OS hosts file needs process and
//! file I/O, which stays outside this crate.  What is verified here is
//! everything that write path computes: the fixed target path, the
//! elevation command built around a temporary file, the compound error
//! message that keeps both the direct-write failure and the elevation
//! failure, and the argument re-quoting used when the process relaunches
//! itself with administrator rights.

use vstd::prelude::*;
use vstd::string::StrSliceExecFns;
use vstd::string::StringExecFns;

verus! {

use crate::HostsError;

/// The fixed, per-platform path of the OS hosts file.
pub fn get_hosts_path(windows: bool) -> (r: String)
    ensures
        windows ==> r@ == "C:\\Windows\\System32\\drivers\\etc\\hosts"@,
        !windows ==> r@ == "/etc/hosts"@,
{
    if windows {
        String::from_str("C:\\Windows\\System32\\drivers\\etc\\hosts")
    } else {
        String::from_str("/etc/hosts")
    }
}

/// `n` occurs somewhere in `h` as a contiguous run.
pub open spec fn contains_seq(h: Seq<char>, n: Seq<char>) -> bool {
    exists|k: int| 0 <= k && k + n.len() <= h.len() && #[trigger] h.subrange(k, k + n.len()) == n
}

/// The message reported when the direct write and the elevation both
/// failed: it embeds both failure texts.
pub open spec fn save_failure_message_spec(direct: Seq<char>, elevation: Seq<char>) -> Seq<char> {
    "Save failed. Direct: ["@ + direct + "]. Elevated: ["@ + elevation + "]"@
}

/// Builds the compound failure message from the two inner failure texts.
pub fn save_failure_message(direct: &str, elevation: &str) -> (r: String)
    ensures
        r@ == save_failure_message_spec(direct@, elevation@),
{
    let mut r = String::from_str("Save failed. Direct: [");
    r.append(direct);
    r.append("]. Elevated: [");
    r.append(elevation);
    r.append("]");
    proof {
        assert(r@ =~= save_failure_message_spec(direct@, elevation@));
    }
    r
}

/// Neither failure is swallowed: the compound message contains the
/// direct-write failure text and the elevation failure text in full.
pub proof fn lemma_save_failure_message_contains_both(direct: Seq<char>, elevation: Seq<char>)
    ensures
        contains_seq(save_failure_message_spec(direct, elevation), direct),
        contains_seq(save_failure_message_spec(direct, elevation), elevation),
{
    let p1 = "Save failed. Direct: ["@;
    let p2 = "]. Elevated: ["@;
    let m = save_failure_message_spec(direct, elevation);
    let k1 = p1.len() as int;
    assert(m.subrange(k1, k1 + direct.len()) =~= direct);
    let k2 = (p1.len() + direct.len() + p2.len()) as int;
    assert(m.subrange(k2, k2 + elevation.len()) =~= elevation);
}

/// The shell command handed to the platform's authenticated-elevation
/// mechanism: it moves the fully written temporary file onto the hosts
/// path and restores standard read permissions.
pub open spec fn elevation_script_spec(temp_path: Seq<char>) -> Seq<char> {
    "do shell script \"mv -f '"@ + temp_path
        + "' /etc/hosts && chmod 644 /etc/hosts\" with administrator privileges"@
}

/// Builds the elevation command for a temporary file at `temp_path`.
pub fn elevation_script(temp_path: &str) -> (r: String)
    ensures
        r@ == elevation_script_spec(temp_path@),
{
    let mut r = String::from_str("do shell script \"mv -f '");
    r.append(temp_path);
    r.append("' /etc/hosts && chmod 644 /etc/hosts\" with administrator privileges");
    proof {
        assert(r@ =~= elevation_script_spec(temp_path@));
    }
    r
}

/// An argument that contains a space must be surrounded by quotes when
/// the command line is rebuilt for the relaunched process.
pub open spec fn has_space(a: Seq<char>) -> bool {
    exists|i: int| 0 <= i < a.len() && a[i] == ' '
}

/// One rebuilt argument: quoted exactly when it contains a space.
pub open spec fn quoted_arg(a: Seq<char>) -> Seq<char> {
    if has_space(a) {
        seq!['"'] + a + seq!['"']
    } else {
        a
    }
}

/// The rebuilt command line: the quoted arguments joined by single spaces.
pub open spec fn joined_args(args: Seq<Seq<char>>) -> Seq<char>
    decreases args.len(),
{
    if args.len() == 0 {
        Seq::empty()
    } else if args.len() == 1 {
        quoted_arg(args[0])
    } else {
        quoted_arg(args[0]) + seq![' '] + joined_args(args.drop_first())
    }
}

/// Appending one more argument extends the joined line on the right.
proof fn lemma_joined_args_push(args: Seq<Seq<char>>, a: Seq<char>)
    requires
        args.len() > 0,
    ensures
        joined_args(args.push(a)) =~= joined_args(args) + seq![' '] + quoted_arg(a),
    decreases args.len(),
{
    let q0 = quoted_arg(args[0]);
    let sp = seq![' '];
    if args.len() == 1 {
        assert(args.push(a).drop_first() =~= seq![a]);
        assert(args.push(a)[0] == args[0]);
        assert(joined_args(args.push(a)) == q0 + sp + joined_args(seq![a]));
        assert(joined_args(seq![a]) == quoted_arg(a));
        assert(joined_args(args) == q0);
    } else {
        lemma_joined_args_push(args.drop_first(), a);
        assert(args.push(a).drop_first() =~= args.drop_first().push(a));
        assert(args.push(a)[0] == args[0]);
        assert(joined_args(args.push(a)) == q0 + sp + joined_args(args.drop_first().push(a)));
        assert(joined_args(args.drop_first().push(a)) == joined_args(args.drop_first()) + sp
            + quoted_arg(a));
        assert(joined_args(args) == q0 + sp + joined_args(args.drop_first()));
        assert(q0 + sp + (joined_args(args.drop_first()) + sp + quoted_arg(a)) =~= (q0 + sp
            + joined_args(args.drop_first())) + sp + quoted_arg(a));
    }
}

/// Whether the argument holds a space character.
fn arg_has_space(a: &str) -> (r: bool)
    ensures
        r == has_space(a@),
{
    let n = a.unicode_len();
    for i in 0..n
        invariant
            n == a@.len(),
            forall|j: int| 0 <= j < i ==> a@[j] != ' ',
    {
        if a.get_char(i) == ' ' {
            proof {
                assert(a@[i as int] == ' ');
            }
            return true;
        }
    }
    false
}

/// Rebuilds a command line from the arguments of the current process:
/// each argument that contains a space is wrapped in quotes, and the
/// results are joined by single spaces.
pub fn quote_windows_args(args: &Vec<String>) -> (r: String)
    ensures
        r@ == joined_args(args@.map(|i: int, a: String| a@)),
{
    let ghost vargs = args@.map(|i: int, a: String| a@);
    let mut r = String::new();
    let mut idx: usize = 0;
    while idx < args.len()
        invariant
            idx <= args.len(),
            vargs == args@.map(|i: int, a: String| a@),
            vargs.len() == args.len(),
            r@ == joined_args(vargs.take(idx as int)),
        decreases args.len() - idx,
    {
        if idx > 0 {
            r.append(" ");
            proof {
                reveal_strlit(" ");
            }
        }
        let quote = arg_has_space(args[idx].as_str());
        if quote {
            r.append("\"");
        }
        r.append(args[idx].as_str());
        if quote {
            r.append("\"");
            proof {
                reveal_strlit("\"");
            }
        }
        proof {
            assert(vargs[idx as int] == args@[idx as int]@);
            assert(vargs.take(idx + 1).drop_last() =~= vargs.take(idx as int));
            assert(vargs.take(idx + 1).last() == vargs[idx as int]);
            if idx == 0 {
                assert(vargs.take(1) =~= seq![vargs[0]]);
                assert(r@ =~= joined_args(vargs.take(1)));
            } else {
                lemma_joined_args_push(vargs.take(idx as int), vargs[idx as int]);
                assert(vargs.take(idx as int).push(vargs[idx as int]) =~= vargs.take(idx + 1));
                assert(r@ =~= joined_args(vargs.take(idx + 1)));
            }
        }
        idx += 1;
    }
    proof {
        assert(vargs.take(args.len() as int) =~= vargs);
    }
    r
}

impl HostsError {
    /// The user-facing text of each failure.
    pub open spec fn message_spec(&self) -> Seq<char> {
        match self {
            HostsError::NotFound => "Profile not found"@,
            HostsError::DuplicateName => "Profile name already exists"@,
            HostsError::IoError(s) => s@,
            HostsError::ElevationFailed { direct, elevation } => save_failure_message_spec(
                direct@,
                elevation@,
            ),
            HostsError::ParseError => "Invalid JSON"@,
        }
    }

    /// Renders the failure as text; for a double write failure the text
    /// carries both inner failure messages.
    pub fn message(&self) -> (r: String)
        ensures
            r@ == self.message_spec(),
    {
        match self {
            HostsError::NotFound => String::from_str("Profile not found"),
            HostsError::DuplicateName => String::from_str("Profile name already exists"),
            HostsError::IoError(s) => s.clone(),
            HostsError::ElevationFailed { direct, elevation } => save_failure_message(
                direct.as_str(),
                elevation.as_str(),
            ),
            HostsError::ParseError => String::from_str("Invalid JSON"),
        }
    }
}

} // verus!
