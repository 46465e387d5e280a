//! The decision rule for terminal color support, over the three environment
//! readings that drive it; reading the environment itself is a caller's
//! concern.

use vstd::prelude::*;
use vstd::string::StringExecFns;

verus! {

/// Whether a terminal supports color, given whether `NO_COLOR` is set,
/// whether `FORCE_COLOR` is set, and the value of `TERM` if set: `NO_COLOR`
/// wins and forbids color; otherwise `FORCE_COLOR` wins and forces it;
/// otherwise `TERM` must be present, nonempty and not the literal `dumb`.
pub open spec fn supports_color_spec(
    no_color_set: bool,
    force_color_set: bool,
    term: Option<Seq<char>>,
) -> bool {
    !no_color_set && (force_color_set || match term {
        Some(t) => t.len() > 0 && t != seq!['d', 'u', 'm', 'b'],
        None => false,
    })
}

/// Decide color support from the environment readings, exactly as
/// `supports_color_spec` states.
pub fn supports_color_from(no_color_set: bool, force_color_set: bool, term: Option<String>) -> (r:
    bool)
    ensures
        r == supports_color_spec(
            no_color_set,
            force_color_set,
            match term {
                Some(t) => Some(t@),
                None => None,
            },
        ),
{
    if no_color_set {
        return false;
    }
    if force_color_set {
        return true;
    }
    match term {
        Some(t) => {
            let dumb = String::from_str("dumb");
            proof {
                reveal_strlit("dumb");
                assert(dumb@ =~= seq!['d', 'u', 'm', 'b']);
            }
            !t.as_str().is_empty() && !(t == dumb)
        },
        None => false,
    }
}

/// `NO_COLOR` set forces the answer to false, whatever else is set.
pub proof fn lemma_no_color_wins(force_color_set: bool, term: Option<Seq<char>>)
    ensures
        !supports_color_spec(true, force_color_set, term),
{
}

} // verus!
