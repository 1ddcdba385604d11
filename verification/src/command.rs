//! Commands to run and files to name.

use crate::text::{chars_of, texts};
use vstd::prelude::*;
use vstd::string::*;

verus! {

/// A program and its arguments.
#[derive(Clone, Debug, PartialEq, Eq)]
pub struct CommandLine {
    pub program: String,
    pub args: Vec<String>,
}

/// The mathematical content of a `CommandLine`.
#[verifier::ext_equal]
pub struct CommandView {
    pub program: Seq<char>,
    pub args: Seq<Seq<char>>,
}

impl View for CommandLine {
    type V = CommandView;

    open spec fn view(&self) -> CommandView {
        CommandView { program: self.program@, args: texts(self.args@) }
    }
}

/// What a finished command left behind.
#[derive(Clone, Debug)]
pub struct CommandOutput {
    /// Whether the command reported success
    pub success: bool,
    pub stdout: Vec<u8>,
    pub stderr: Vec<u8>,
}

/// The path `rel`, taken relative to `base` unless it is absolute.
pub open spec fn joined(base: Seq<char>, rel: Seq<char>) -> Seq<char> {
    if rel.len() > 0 && rel[0] == '/' {
        rel
    } else if base.len() == 0 || base.last() == '/' {
        base + rel
    } else {
        base.push('/') + rel
    }
}

/// The path `rel`, taken relative to `base` unless it is absolute.
pub fn join_path(base: &str, rel: &str) -> (r: String)
    ensures
        r@ == joined(base@, rel@),
{
    let rel_chars = chars_of(rel);
    if rel_chars.len() > 0 && rel_chars[0] == '/' {
        return rel.to_owned();
    }
    let base_chars = chars_of(base);
    let mut out = base.to_owned();
    if base_chars.len() > 0 && base_chars[base_chars.len() - 1] != '/' {
        out.push('/');
    }
    out.append(rel);
    out
}

/// The home directory's configuration of Home Manager.
pub open spec fn hm_config(home: Seq<char>) -> Seq<char> {
    joined(home, ".config/home-manager"@)
}

/// The user's name, or `user` where it is not known.
pub open spec fn user_name(user: Option<Seq<char>>) -> Seq<char> {
    match user {
        Some(name) => name,
        None => "user"@,
    }
}

/// The view of an optional text.
pub open spec fn opt_str(text: Option<&str>) -> Option<Seq<char>> {
    match text {
        Some(s) => Some(s@),
        None => None,
    }
}

/// The user's name, or `user` where it is not known.
pub(crate) fn user_or_default(user: Option<&str>) -> (r: String)
    ensures
        r@ == user_name(opt_str(user)),
{
    match user {
        Some(name) => name.to_owned(),
        None => "user".to_owned(),
    }
}

/// A path that is taken relative to another one lies below it, behind exactly one slash; an
/// absolute path stays as it is.
pub proof fn paths_are_joined(base: Seq<char>, rel: Seq<char>)
    ensures
        rel.len() > 0 && rel[0] == '/' ==> joined(base, rel) == rel,
        !(rel.len() > 0 && rel[0] == '/') ==> base.is_prefix_of(joined(base, rel))
            && joined(base, rel).skip(joined(base, rel).len() - rel.len()) == rel,
        !(rel.len() > 0 && rel[0] == '/') && base.len() > 0 ==> joined(base, rel)[joined(
            base,
            rel,
        ).len() - rel.len() - 1] == '/',
        !(rel.len() > 0 && rel[0] == '/') ==> joined(base, rel).len() <= base.len() + 1 + rel.len(),
        !(rel.len() > 0 && rel[0] == '/') && (base.len() == 0 || base.last() == '/') ==> joined(
            base,
            rel,
        ) == base + rel,
{
    if !(rel.len() > 0 && rel[0] == '/') {
        let path = joined(base, rel);
        assert(path.skip(path.len() - rel.len()) =~= rel);
    }
}

/// The configuration of Home Manager lies below the home directory.
pub proof fn configuration_lies_in_home(home: Seq<char>)
    ensures
        home.len() > 0 && home.last() != '/' ==> hm_config(home) == home + "/.config/home-manager"@,
        home.len() == 0 || home.last() == '/' ==> hm_config(home) == home + ".config/home-manager"@,
{
    reveal_strlit(".config/home-manager");
    reveal_strlit("/.config/home-manager");
    if home.len() > 0 && home.last() != '/' {
        assert(hm_config(home) =~= home + "/.config/home-manager"@);
    }
}

/// A user whose name is known goes by it.
pub proof fn users_go_by_their_names(name: Seq<char>)
    ensures
        user_name(Some(name)) == name,
        user_name(None) == "user"@,
{
}

/// The content of a command is its program and its arguments, in order.
pub proof fn commands_hold_their_arguments(command: CommandLine)
    ensures
        command@.program == command.program@,
        command@.args.len() == command.args@.len(),
        forall|i: int|
            0 <= i < command.args@.len() ==> #[trigger] command@.args[i] == command.args@[i]@,
{
}

} // verus!
