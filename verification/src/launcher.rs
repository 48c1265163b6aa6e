//! The launcher's command line: it takes only the game to launch for.
use vstd::prelude::*;

verus! {

/// The usage text of the launcher.
pub const LAUNCHER_USAGE: &'static str = "usage:\n  fun [cs2]\n\nnotes:\n  launches fun-radar, fun-trigger and fun-mouse as separate child processes.\n";

/// Why the launcher's command line was refused.
#[derive(Debug, Clone, PartialEq, Eq)]
pub enum LaunchArgError {
    /// `--help` or `-h`: the usage is to be printed.
    HelpRequested,
    /// An argument other than `cs2`.
    Unsupported { argument: String },
}

/// The usage text.
pub fn usage() -> (r: &'static str)
    ensures
        r == LAUNCHER_USAGE,
{
    LAUNCHER_USAGE
}

/// The first argument that is not `cs2` is at `k`.
pub open spec fn first_other(args: Seq<Seq<char>>, k: int) -> bool {
    &&& 0 <= k < args.len()
    &&& args[k] != "cs2"@
    &&& forall|j: int| 0 <= j < k ==> #[trigger] args[j] == "cs2"@
}

/// Checks the command line (without the program name): every argument must be
/// `cs2`; the first one that is not asks for help or is refused.
pub fn parse_args_from(args: Vec<String>) -> (r: Result<(), LaunchArgError>)
    ensures
        (forall|j: int| 0 <= j < args@.len() ==> #[trigger] args@[j]@ == "cs2"@) ==> r is Ok,
        forall|k: int|
            first_other(args@.map_values(|a: String| a@), k) ==> match r {
                Err(LaunchArgError::HelpRequested) => args@[k]@ == "--help"@ || args@[k]@ == "-h"@,
                Err(LaunchArgError::Unsupported { argument }) => argument@ == args@[k]@
                    && args@[k]@ != "--help"@ && args@[k]@ != "-h"@,
                Ok(()) => false,
            },
{
    let ghost views = args@.map_values(|a: String| a@);
    let mut i: usize = 0;
    while i < args.len()
        invariant
            i <= args@.len(),
            views == args@.map_values(|a: String| a@),
            forall|j: int| 0 <= j < i ==> #[trigger] args@[j]@ == "cs2"@,
        decreases args.len() - i,
    {
        if args[i] != "cs2".to_owned() {
            proof {
                assert(first_other(views, i as int));
                assert forall|k: int| first_other(views, k) implies k == i by {
                    if k < i {
                        assert(args@[k]@ == "cs2"@);
                    } else if k > i {
                        assert(views[i as int] == "cs2"@);
                    }
                }
            }
            if args[i] == "--help".to_owned() || args[i] == "-h".to_owned() {
                return Err(LaunchArgError::HelpRequested);
            }
            return Err(LaunchArgError::Unsupported { argument: args[i].clone() });
        }
        i = i + 1;
    }
    Ok(())
}

} // verus!
