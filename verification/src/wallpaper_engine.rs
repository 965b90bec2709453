//! The command engine: a command template split into tokens at
//! construction, and the substitution that turns a token sequence plus an
//! image path into the argument vector of the wallpaper command.
//!
//! The engine itself never spawns a process; the surrounding program does
//! that with the argument vector built here, and hands the exit status back
//! to [`WallpaperEngine::command_outcome`].

use vstd::prelude::*;

use crate::text::join_args;
use crate::text::join_spaces;
use crate::text::split_whitespace_tokens;
use crate::text::split_ws;

verus! {

/// The marker replaced by the image path in a command template.
pub open spec fn placeholder() -> Seq<char> {
    seq!['$', '{', 'F', 'I', 'L', 'E', '_', 'P', 'A', 'T', 'H', '}']
}

/// The placeholder marker as text.
fn placeholder_str() -> (s: &'static str)
    ensures
        s@ == placeholder(),
{
    let s = "${FILE_PATH}";
    proof {
        reveal_strlit("${FILE_PATH}");
        assert(s@ =~= placeholder());
    }
    s
}

/// The placeholder occurs in `t` starting at position `i`.
pub open spec fn occurs_at(t: Seq<char>, i: int) -> bool {
    &&& 0 <= i
    &&& i + placeholder().len() <= t.len()
    &&& t.subrange(i, i + placeholder().len() as int) == placeholder()
}

/// The position of the first occurrence of the placeholder at or after `i`.
pub open spec fn first_occurrence_from(t: Seq<char>, i: int) -> Option<int>
    decreases t.len() - i,
{
    if i < 0 || i + placeholder().len() > t.len() {
        None
    } else if occurs_at(t, i) {
        Some(i)
    } else {
        first_occurrence_from(t, i + 1)
    }
}

/// The position of the first occurrence of the placeholder in `t`.
pub open spec fn first_occurrence(t: Seq<char>) -> Option<int> {
    first_occurrence_from(t, 0)
}

/// A token after substitution: the first occurrence of the placeholder
/// replaced by `path`, the rest of the token kept; a token without an
/// occurrence is kept whole.
pub open spec fn subst_token(t: Seq<char>, path: Seq<char>) -> Seq<char> {
    match first_occurrence(t) {
        Some(i) => t.subrange(0, i) + path + t.subrange(
            i + placeholder().len() as int,
            t.len() as int,
        ),
        None => t,
    }
}

/// A found first occurrence is an occurrence, and positions before it hold none.
pub proof fn lemma_first_occurrence_some(t: Seq<char>, i: int, j: int)
    requires
        first_occurrence_from(t, i) == Some(j),
    ensures
        occurs_at(t, j),
        i <= j,
        forall|k: int| i <= k < j ==> !occurs_at(t, k),
    decreases t.len() - i,
{
    if !(i < 0 || i + placeholder().len() > t.len()) && !occurs_at(t, i) {
        lemma_first_occurrence_some(t, i + 1, j);
    }
}

/// An occurrence at `i` with none before it is the first occurrence.
pub proof fn lemma_first_occurrence_at(t: Seq<char>, i: int, j: int)
    requires
        occurs_at(t, j),
        0 <= i <= j,
        forall|k: int| i <= k < j ==> !occurs_at(t, k),
    ensures
        first_occurrence_from(t, i) == Some(j),
    decreases t.len() - i,
{
    if i < j {
        lemma_first_occurrence_at(t, i + 1, j);
    }
}

/// A token in which the placeholder does not occur is left unchanged by
/// substitution.
pub proof fn lemma_subst_token_absent(t: Seq<char>, path: Seq<char>)
    requires
        forall|i: int| !occurs_at(t, i),
    ensures
        subst_token(t, path) == t,
{
    match first_occurrence(t) {
        Some(j) => lemma_first_occurrence_some(t, 0, j),
        None => (),
    }
}

/// For a token with an occurrence of the placeholder at `i` and none before
/// it, the substituted token is the text before `i`, then `path`, then the
/// text after the occurrence.
pub proof fn lemma_subst_token_at(t: Seq<char>, path: Seq<char>, i: int)
    requires
        occurs_at(t, i),
        forall|k: int| 0 <= k < i ==> !occurs_at(t, k),
    ensures
        subst_token(t, path) == t.subrange(0, i) + path + t.subrange(
            i + placeholder().len() as int,
            t.len() as int,
        ),
{
    lemma_first_occurrence_at(t, 0, i);
}

/// Whether the placeholder occurs in `t` starting at `i`.
fn match_at(t: &str, n: usize, i: usize) -> (r: bool)
    requires
        n == t@.len(),
        i + placeholder().len() <= n,
    ensures
        r == occurs_at(t@, i as int),
{
    let ph = placeholder_str();
    proof {
        assert(placeholder().len() == 12);
    }
    let mut j: usize = 0;
    while j < 12
        invariant
            n == t@.len(),
            ph@ == placeholder(),
            placeholder().len() == 12,
            i + 12 <= n,
            j <= 12,
            forall|k: int| 0 <= k < j ==> t@[i + k] == placeholder()[k],
        decreases 12 - j,
    {
        let tc = t.get_char(i + j);
        let pc = ph.get_char(j);
        if tc != pc {
            proof {
                assert(t@.subrange(i as int, i + 12)[j as int] == t@[i + j]);
            }
            return false;
        }
        j = j + 1;
    }
    proof {
        assert(t@.subrange(i as int, i + 12) =~= placeholder());
    }
    true
}

/// The position of the first occurrence of the placeholder in `t`.
fn find_placeholder(t: &str, n: usize) -> (r: Option<usize>)
    requires
        n == t@.len(),
    ensures
        match r {
            Some(i) => first_occurrence(t@) == Some(i as int),
            None => first_occurrence(t@) is None,
        },
{
    proof {
        assert(placeholder().len() == 12);
    }
    if n < 12 {
        return None;
    }
    let mut i: usize = 0;
    while i <= n - 12
        invariant
            n == t@.len(),
            12 <= n,
            i <= n - 12 + 1,
            placeholder().len() == 12,
            first_occurrence(t@) == first_occurrence_from(t@, i as int),
        decreases n - i,
    {
        if match_at(t, n, i) {
            return Some(i);
        }
        i = i + 1;
    }
    None
}

/// `t` with the first occurrence of the placeholder, if any, replaced by
/// `path`.
pub fn substitute_token(t: &str, path: &str) -> (r: String)
    ensures
        r@ == subst_token(t@, path@),
{
    let n: usize = t.unicode_len();
    match find_placeholder(t, n) {
        None => String::from_str(t),
        Some(i) => {
            proof {
                lemma_first_occurrence_some(t@, 0, i as int);
                assert(placeholder().len() == 12);
            }
            let mut r = String::from_str(t.substring_char(0, i));
            r.append(path);
            r.append(t.substring_char(i + 12, n));
            r
        },
    }
}

/// A failure of one wallpaper change.
#[derive(Debug)]
pub enum WallpaperError {
    /// The command could not be started: the template has no tokens, or the
    /// executable was not found or could not be launched.
    SpawnError,
    /// The command started but exited with a failure status; carries the
    /// command line it was started with.
    ExecutionError(String),
}

impl WallpaperError {
    /// A diagnostic line describing the failure.
    pub fn message(&self) -> (r: String)
        ensures
            self matches WallpaperError::ExecutionError(cmd) ==> r@ == "command failed: "@
                + cmd@,
            self is SpawnError ==> r@ == "could not spawn command"@,
    {
        match self {
            WallpaperError::SpawnError => String::from_str("could not spawn command"),
            WallpaperError::ExecutionError(cmd) => {
                let mut r = String::from_str("command failed: ");
                r.append(cmd.as_str());
                r
            },
        }
    }
}

/// Changes the wallpaper through a configured command template.
///
/// The template is split into whitespace-separated tokens once, at
/// construction; the view of an engine is that token sequence.
pub struct WallpaperEngine {
    args: Vec<String>,
}

impl View for WallpaperEngine {
    type V = Seq<Seq<char>>;

    closed spec fn view(&self) -> Seq<Seq<char>> {
        self.args.deep_view()
    }
}

impl WallpaperEngine {
    /// A new engine for the given command template. The template is split
    /// on whitespace; the place for the image path is marked in it with the
    /// placeholder `${FILE_PATH}`.
    pub fn new(command: &str) -> (engine: Self)
        ensures
            engine@ == split_ws(command@),
    {
        WallpaperEngine { args: split_whitespace_tokens(command) }
    }

    /// The argument vector for one wallpaper change: every token of the
    /// template with its first placeholder occurrence replaced by
    /// `image_path`, tokens without an occurrence kept whole. A template
    /// with no tokens names no executable, so it fails to spawn.
    pub fn build_command(&self, image_path: &str) -> (r: Result<Vec<String>, WallpaperError>)
        ensures
            self@.len() == 0 ==> (r matches Err(e) && e is SpawnError),
            self@.len() > 0 ==> (r matches Ok(args) && args.deep_view() == self@.map_values(
                |t: Seq<char>| subst_token(t, image_path@),
            )),
    {
        if self.args.len() == 0 {
            return Err(WallpaperError::SpawnError);
        }
        let mut out: Vec<String> = Vec::new();
        let mut i: usize = 0;
        while i < self.args.len()
            invariant
                i <= self.args.len(),
                out.deep_view().len() == i,
                forall|j: int|
                    0 <= j < i ==> out.deep_view()[j] == subst_token(
                        self@[j],
                        image_path@,
                    ),
            decreases self.args.len() - i,
        {
            let ghost prev = out.deep_view();
            let s = substitute_token(self.args[i].as_str(), image_path);
            out.push(s);
            proof {
                assert(out.deep_view() =~= prev.push(s@));
            }
            i = i + 1;
        }
        proof {
            assert(out.deep_view() =~= self@.map_values(
                |t: Seq<char>| subst_token(t, image_path@),
            ));
        }
        Ok(out)
    }

    /// The result of a finished wallpaper command: a success exit status is
    /// success; a failure status is an `ExecutionError` carrying the
    /// command line, the arguments joined by single spaces.
    pub fn command_outcome(args: &Vec<String>, success: bool) -> (r: Result<(), WallpaperError>)
        ensures
            success ==> r is Ok,
            !success ==> (r matches Err(WallpaperError::ExecutionError(cmd)) && cmd@
                == join_spaces(args.deep_view())),
    {
        if success {
            Ok(())
        } else {
            Err(WallpaperError::ExecutionError(join_args(args)))
        }
    }
}

} // verus!
