//! Nix packages, installed through Home Manager.
//!
//! A package is installed by a module file of its own in Home Manager's `apps` directory, and
//! uninstalled by removing that file; after either, the configuration is switched. The functions
//! here say which steps that takes, in order. The caller carries the steps out and stops at the
//! first one that fails.

use crate::command::{
    hm_config, join_path, joined, opt_str, user_name, user_or_default, CommandLine, CommandView,
};
use crate::text::{
    any_same, has_prefix, strip_all, stripping_takes_copies_off, texts, trim_start_matches,
};
use vstd::prelude::*;
use vstd::string::*;

verus! {

/// A step of an installation.
#[derive(Clone, Debug, PartialEq, Eq)]
pub enum NixStep {
    /// Create the directory and its parents, unless they exist.
    CreateDir(String),
    /// Write the file at the path with the content.
    WriteFile(String, String),
    /// Remove the file at the path, if it exists.
    RemoveFile(String),
    /// Run the command. With a message, the step fails if the command does not start, and with
    /// that message if it does not report success; without one, the step never fails.
    Run(CommandLine, Option<String>),
}

/// The mathematical content of a `NixStep`.
pub enum StepView {
    CreateDir(Seq<char>),
    WriteFile(Seq<char>, Seq<char>),
    RemoveFile(Seq<char>),
    Run(CommandView, Option<Seq<char>>),
}

impl View for NixStep {
    type V = StepView;

    open spec fn view(&self) -> StepView {
        match *self {
            NixStep::CreateDir(path) => StepView::CreateDir(path@),
            NixStep::WriteFile(path, content) => StepView::WriteFile(path@, content@),
            NixStep::RemoveFile(path) => StepView::RemoveFile(path@),
            NixStep::Run(command, message) => StepView::Run(
                command@,
                match message {
                    Some(text) => Some(text@),
                    None => None,
                },
            ),
        }
    }
}

/// The contents of steps.
pub open spec fn step_views(steps: Seq<NixStep>) -> Seq<StepView> {
    steps.map_values(|step: NixStep| step@)
}

/// The directory of the module files.
pub open spec fn modules_dir(home: Seq<char>) -> Seq<char> {
    joined(home, ".config/home-manager/apps"@)
}

/// The module file of the package `attr`.
pub open spec fn module_at(home: Seq<char>, attr: Seq<char>) -> Seq<char> {
    joined(modules_dir(home), attr + ".nix"@)
}

/// The attribute without the prefix that a search of nixpkgs gives it.
pub open spec fn short_attr(attr: Seq<char>) -> Seq<char> {
    strip_all(attr, "nixpkgs."@)
}

/// The module that installs the package `attr`.
pub open spec fn package_module(attr: Seq<char>) -> Seq<char> {
    "# Installed via Mirror OS Software Center\n{ pkgs, ... }:\n{\nhome.packages = [ pkgs."@ + attr
        + " ];\n}\n"@
}

/// The steps that write the module file of `attr`.
pub open spec fn write_steps(home: Seq<char>, attr: Seq<char>, content: Seq<char>) -> Seq<StepView> {
    seq![
        StepView::CreateDir(modules_dir(home)),
        StepView::WriteFile(module_at(home, attr), content),
    ]
}

/// The steps that remove the module file of `attr`.
pub open spec fn delete_steps(home: Seq<char>, attr: Seq<char>) -> Seq<StepView> {
    seq![StepView::RemoveFile(module_at(home, attr))]
}

/// The steps that switch to the current configuration: all its files are staged, so that the
/// flake sees new modules, and then Home Manager switches to the user's part of the flake.
pub open spec fn switch_steps(home: Seq<char>, user: Option<Seq<char>>) -> Seq<StepView> {
    seq![
        StepView::Run(
            CommandView { program: "git"@, args: seq!["-C"@, hm_config(home), "add"@, "-A"@] },
            None,
        ),
        StepView::Run(
            CommandView {
                program: "home-manager"@,
                args: seq![
                    "switch"@,
                    "--flake"@,
                    hm_config(home) + "#"@ + user_name(user),
                ],
            },
            Some("home-manager switch failed"@),
        ),
    ]
}

/// The steps that install the package `attr`.
pub open spec fn install_steps(attr: Seq<char>, home: Seq<char>, user: Option<Seq<char>>) -> Seq<
    StepView,
> {
    write_steps(home, short_attr(attr), package_module(short_attr(attr))) + switch_steps(home, user)
}

/// The steps that uninstall the package `attr`.
pub open spec fn uninstall_steps(attr: Seq<char>, home: Seq<char>, user: Option<Seq<char>>) -> Seq<
    StepView,
> {
    delete_steps(home, short_attr(attr)) + switch_steps(home, user)
}

/// The directory of the module files.
pub fn apps_dir(home: &str) -> (r: String)
    ensures
        r@ == modules_dir(home@),
{
    join_path(home, ".config/home-manager/apps")
}

/// The module file of the package `attr`.
fn module_file(home: &str, attr: &str) -> (r: String)
    ensures
        r@ == module_at(home@, attr@),
{
    let mut name = attr.to_owned();
    name.append(".nix");
    join_path(apps_dir(home).as_str(), name.as_str())
}

/// Writes the module file of the package `attr`.
pub fn write_nix_module(home: &str, attr: &str, nix_content: &str) -> (r: Vec<NixStep>)
    ensures
        step_views(r@) == write_steps(home@, attr@, nix_content@),
{
    let mut steps: Vec<NixStep> = Vec::new();
    steps.push(NixStep::CreateDir(apps_dir(home)));
    steps.push(NixStep::WriteFile(module_file(home, attr), nix_content.to_owned()));
    assert(step_views(steps@) =~= write_steps(home@, attr@, nix_content@));
    steps
}

/// Deletes the module file of the package `attr`.
pub fn delete_nix_module(home: &str, attr: &str) -> (r: Vec<NixStep>)
    ensures
        step_views(r@) == delete_steps(home@, attr@),
{
    let mut steps: Vec<NixStep> = Vec::new();
    steps.push(NixStep::RemoveFile(module_file(home, attr)));
    assert(step_views(steps@) =~= delete_steps(home@, attr@));
    steps
}

/// Stages all configuration files and switches Home Manager to them.
pub fn hm_switch(home: &str, user: Option<&str>) -> (r: Vec<NixStep>)
    ensures
        step_views(r@) == switch_steps(home@, opt_str(user)),
{
    let config = join_path(home, ".config/home-manager");
    let mut flake = config.clone();
    flake.append("#");
    flake.append(user_or_default(user).as_str());

    let mut stage_args: Vec<String> = Vec::new();
    stage_args.push("-C".to_owned());
    stage_args.push(config);
    stage_args.push("add".to_owned());
    stage_args.push("-A".to_owned());
    let stage = CommandLine { program: "git".to_owned(), args: stage_args };

    let mut switch_args: Vec<String> = Vec::new();
    switch_args.push("switch".to_owned());
    switch_args.push("--flake".to_owned());
    switch_args.push(flake);
    let switch = CommandLine { program: "home-manager".to_owned(), args: switch_args };

    assert(stage@.args =~= seq!["-C"@, hm_config(home@), "add"@, "-A"@]);
    assert(switch@.args =~= seq![
        "switch"@,
        "--flake"@,
        hm_config(home@) + "#"@ + user_name(opt_str(user)),
    ]);
    let mut steps: Vec<NixStep> = Vec::new();
    steps.push(NixStep::Run(stage, None));
    steps.push(NixStep::Run(switch, Some("home-manager switch failed".to_owned())));
    assert(step_views(steps@) =~= switch_steps(home@, opt_str(user)));
    steps
}

/// Installs a package: writes its module file and switches.
pub fn install(attr: &str, home: &str, user: Option<&str>) -> (r: Vec<NixStep>)
    ensures
        step_views(r@) == install_steps(attr@, home@, opt_str(user)),
{
    let short = trim_start_matches(attr, "nixpkgs.");
    let mut content =
        "# Installed via Mirror OS Software Center\n{ pkgs, ... }:\n{\nhome.packages = [ pkgs.".to_owned();
    content.append(short.as_str());
    content.append(" ];\n}\n");
    let mut steps = write_nix_module(home, short.as_str(), content.as_str());
    let ghost written = step_views(steps@);
    let mut switch = hm_switch(home, user);
    let ghost switched = step_views(switch@);
    steps.append(&mut switch);
    assert(step_views(steps@) =~= written + switched);
    steps
}

/// Uninstalls a package: deletes its module file and switches.
pub fn uninstall(attr: &str, home: &str, user: Option<&str>) -> (r: Vec<NixStep>)
    ensures
        step_views(r@) == uninstall_steps(attr@, home@, opt_str(user)),
{
    let short = trim_start_matches(attr, "nixpkgs.");
    let mut steps = delete_nix_module(home, short.as_str());
    let ghost deleted = step_views(steps@);
    let mut switch = hm_switch(home, user);
    let ghost switched = step_views(switch@);
    steps.append(&mut switch);
    assert(step_views(steps@) =~= deleted + switched);
    steps
}

/// Whether the package `attr` is installed where the files `existing` exist: whether its module
/// file is among them. Without a home directory nothing is installed.
pub open spec fn has_module(
    attr: Seq<char>,
    home: Option<Seq<char>>,
    existing: Seq<Seq<char>>,
) -> bool {
    match home {
        Some(dir) => existing.contains(module_at(dir, short_attr(attr))),
        None => false,
    }
}

/// Where the module file of the package `attr` would be, if there is a home directory.
pub fn installed_module(attr: &str, home: Option<&str>) -> (r: Option<String>)
    ensures
        match r {
            Some(path) => home is Some && path@ == module_at(home->0@, short_attr(attr@)),
            None => home is None,
        },
{
    match home {
        Some(dir) => Some(module_file(dir, trim_start_matches(attr, "nixpkgs.").as_str())),
        None => None,
    }
}

/// Whether the package `attr` is installed, where `existing` names the files that exist.
pub fn is_installed(attr: &str, home: Option<&str>, existing: &Vec<String>) -> (r: bool)
    ensures
        r == has_module(attr@, opt_str(home), texts(existing@)),
{
    match installed_module(attr, home) {
        Some(path) => any_same(existing, path.as_str()),
        None => false,
    }
}

/// The files after a step is carried out on `files`, which maps paths to contents. The commands
/// of an installation touch no module files.
pub open spec fn files_after(files: Map<Seq<char>, Seq<char>>, step: StepView) -> Map<
    Seq<char>,
    Seq<char>,
> {
    match step {
        StepView::WriteFile(path, content) => files.insert(path, content),
        StepView::RemoveFile(path) => files.remove(path),
        _ => files,
    }
}

/// The files after the steps are carried out on `files` in order.
pub open spec fn files_after_all(files: Map<Seq<char>, Seq<char>>, steps: Seq<StepView>) -> Map<
    Seq<char>,
    Seq<char>,
> {
    steps.fold_left(files, |f: Map<Seq<char>, Seq<char>>, step: StepView| files_after(f, step))
}

/// Installing a package writes its module file and no other.
pub proof fn install_writes_module(
    attr: Seq<char>,
    home: Seq<char>,
    user: Option<Seq<char>>,
    files: Map<Seq<char>, Seq<char>>,
)
    ensures
        files_after_all(files, install_steps(attr, home, user)) == files.insert(
            module_at(home, short_attr(attr)),
            package_module(short_attr(attr)),
        ),
{
    reveal_with_fuel(Seq::fold_left, 5);
    let steps = install_steps(attr, home, user);
    assert(steps.len() == 4);
    assert(steps.drop_last().drop_last().drop_last()[0] == steps[0]);
}

/// Uninstalling a package removes its module file and no other.
pub proof fn uninstall_removes_module(
    attr: Seq<char>,
    home: Seq<char>,
    user: Option<Seq<char>>,
    files: Map<Seq<char>, Seq<char>>,
)
    ensures
        files_after_all(files, uninstall_steps(attr, home, user)) == files.remove(
            module_at(home, short_attr(attr)),
        ),
{
    reveal_with_fuel(Seq::fold_left, 4);
    let steps = uninstall_steps(attr, home, user);
    assert(steps.len() == 3);
    assert(steps.drop_last().drop_last()[0] == steps[0]);
}

/// A package counts as installed once it was installed, whichever files were there before.
pub proof fn installed_after_install(
    attr: Seq<char>,
    home: Seq<char>,
    user: Option<Seq<char>>,
    files: Map<Seq<char>, Seq<char>>,
    existing: Seq<Seq<char>>,
)
    requires
        forall|path: Seq<char>|
            existing.contains(path) <==> files_after_all(
                files,
                install_steps(attr, home, user),
            ).contains_key(path),
    ensures
        has_module(attr, Some(home), existing),
{
    install_writes_module(attr, home, user, files);
}

/// A package does not count as installed once it was uninstalled, whichever files were there
/// before.
pub proof fn not_installed_after_uninstall(
    attr: Seq<char>,
    home: Seq<char>,
    user: Option<Seq<char>>,
    files: Map<Seq<char>, Seq<char>>,
    existing: Seq<Seq<char>>,
)
    requires
        forall|path: Seq<char>|
            existing.contains(path) <==> files_after_all(
                files,
                uninstall_steps(attr, home, user),
            ).contains_key(path),
    ensures
        !has_module(attr, Some(home), existing),
{
    uninstall_removes_module(attr, home, user, files);
}

/// Uninstalling a package undoes its installation: the files are as before, apart from the
/// package's own module file.
pub proof fn uninstall_undoes_install(
    attr: Seq<char>,
    home: Seq<char>,
    user: Option<Seq<char>>,
    files: Map<Seq<char>, Seq<char>>,
)
    ensures
        files_after_all(
            files_after_all(files, install_steps(attr, home, user)),
            uninstall_steps(attr, home, user),
        ) == files.remove(module_at(home, short_attr(attr))),
{
    install_writes_module(attr, home, user, files);
    uninstall_removes_module(attr, home, user, files_after_all(files, install_steps(attr, home, user)));
    assert(files.insert(
        module_at(home, short_attr(attr)),
        package_module(short_attr(attr)),
    ).remove(module_at(home, short_attr(attr))) =~= files.remove(
        module_at(home, short_attr(attr)),
    ));
}

/// Whether a name is an absolute path.
pub open spec fn is_absolute(name: Seq<char>) -> bool {
    name.len() > 0 && name[0] == '/'
}

/// Packages with different names have different module files, if both names or neither are
/// absolute paths.
proof fn lemma_modules_differ(home: Seq<char>, a: Seq<char>, b: Seq<char>)
    requires
        a != b,
        is_absolute(a) == is_absolute(b),
    ensures
        module_at(home, a) != module_at(home, b),
{
    reveal_strlit(".nix");
    let x = a + ".nix"@;
    let y = b + ".nix"@;
    let dir = modules_dir(home);
    if module_at(home, a) == module_at(home, b) {
        if !is_absolute(a) {
            let n: int = if dir.len() == 0 || dir.last() == '/' {
                dir.len() as int
            } else {
                dir.len() as int + 1
            };
            assert(module_at(home, a).skip(n) =~= x);
            assert(module_at(home, b).skip(n) =~= y);
        }
        assert(x == y);
        assert(x.take(x.len() - 4) =~= a);
        assert(y.take(y.len() - 4) =~= b);
    }
}

/// Installing or uninstalling a package does not change whether another one counts as installed.
/// Left out are a relative name and an absolute one that lead to the same module file.
pub proof fn other_packages_stay(
    attr: Seq<char>,
    other: Seq<char>,
    home: Seq<char>,
    user: Option<Seq<char>>,
    steps: Seq<StepView>,
    files: Map<Seq<char>, Seq<char>>,
    before: Seq<Seq<char>>,
    after: Seq<Seq<char>>,
)
    requires
        short_attr(attr) != short_attr(other),
        is_absolute(short_attr(attr)) != is_absolute(short_attr(other)) ==> module_at(
            home,
            short_attr(attr),
        ) != module_at(home, short_attr(other)),
        steps == install_steps(attr, home, user) || steps == uninstall_steps(attr, home, user),
        forall|path: Seq<char>| before.contains(path) <==> files.contains_key(path),
        forall|path: Seq<char>|
            after.contains(path) <==> files_after_all(files, steps).contains_key(path),
    ensures
        has_module(other, Some(home), after) == has_module(other, Some(home), before),
{
    if is_absolute(short_attr(attr)) == is_absolute(short_attr(other)) {
        lemma_modules_differ(home, short_attr(attr), short_attr(other));
    }
    install_writes_module(attr, home, user, files);
    uninstall_removes_module(attr, home, user, files);
}

/// The prefix of a search result does not matter: a package is installed, uninstalled and looked
/// up alike with and without it.
pub proof fn search_prefix_is_ignored(
    attr: Seq<char>,
    home: Seq<char>,
    user: Option<Seq<char>>,
    existing: Seq<Seq<char>>,
)
    ensures
        install_steps("nixpkgs."@ + attr, home, user) == install_steps(attr, home, user),
        uninstall_steps("nixpkgs."@ + attr, home, user) == uninstall_steps(attr, home, user),
        has_module("nixpkgs."@ + attr, Some(home), existing) == has_module(
            attr,
            Some(home),
            existing,
        ),
{
    reveal_strlit("nixpkgs.");
    let prefix = "nixpkgs."@;
    assert((prefix + attr).subrange(0, prefix.len() as int) =~= prefix);
    assert((prefix + attr).skip(prefix.len() as int) =~= attr);
}

/// The module that is written for a package names the package and all of its name: between the
/// bracket with `pkgs.` and the closing bracket stands the whole short attribute, so that it reads
/// back from the module.
pub proof fn modules_name_their_package(
    attr: Seq<char>,
    home: Seq<char>,
    user: Option<Seq<char>>,
    steps: Seq<NixStep>,
    before: Seq<char>,
    name: Seq<char>,
)
    requires
        step_views(steps) == install_steps(attr, home, user),
        before == "# Installed via Mirror OS Software Center\n{ pkgs, ... }:\n{\nhome.packages = [ pkgs."@,
    ensures
        steps.len() == 4,
        steps[1] matches NixStep::WriteFile(path, content) && path@ == module_at(
            home,
            short_attr(attr),
        ) && content@ == before + short_attr(attr) + " ];\n}\n"@ && content@.subrange(
            before.len() as int,
            content@.len() - " ];\n}\n"@.len(),
        ) == short_attr(attr) && (content@ == before + name + " ];\n}\n"@ ==> name == short_attr(
            attr,
        )),
        steps[0] matches NixStep::CreateDir(dir) && dir@ == modules_dir(home),
{
    let short = short_attr(attr);
    let after = " ];\n}\n"@;
    assert(step_views(steps).len() == 4);
    assert(step_views(steps)[0] == steps[0]@);
    assert(step_views(steps)[1] == steps[1]@);
    if let NixStep::WriteFile(path, content) = steps[1] {
        let n = before.len() as int;
        assert(content@ == before + short + after);
        assert(content@.subrange(n, content@.len() - after.len()) =~= short);
        if content@ == before + name + after {
            assert((before + name + after).subrange(n, content@.len() - after.len()) =~= name);
        }
    }
}

/// Packages with different short attributes have different modules.
pub proof fn modules_tell_packages_apart(a: Seq<char>, b: Seq<char>)
    ensures
        package_module(a) == package_module(b) ==> a == b,
{
    let before =
        "# Installed via Mirror OS Software Center\n{ pkgs, ... }:\n{\nhome.packages = [ pkgs."@;
    let after = " ];\n}\n"@;
    let n = before.len() as int;
    let x = package_module(a);
    let y = package_module(b);
    assert(x.subrange(n, x.len() - after.len()) =~= a);
    assert(y.subrange(n, y.len() - after.len()) =~= b);
}

/// The short attribute is the attribute, unless it has the prefix of a search result; the prefix is
/// taken off, and nothing else.
pub proof fn short_attributes_lose_the_prefix(attr: Seq<char>)
    ensures
        short_attr("nixpkgs."@ + attr) == short_attr(attr),
        !has_prefix(attr, "nixpkgs."@) ==> short_attr(attr) == attr,
        !has_prefix(short_attr(attr), "nixpkgs."@),
{
    reveal_strlit("nixpkgs.");
    stripping_takes_copies_off(attr, "nixpkgs."@);
}

/// A package's module file lies in the directory of modules, below the home directory, and has the
/// package's name and the extension of a Nix file; unless the name is an absolute path, which it
/// has then, with the extension.
pub proof fn modules_lie_in_their_directory(home: Seq<char>, attr: Seq<char>)
    ensures
        is_absolute(attr) ==> module_at(home, attr) == attr + ".nix"@,
        !is_absolute(attr) ==> module_at(home, attr) == modules_dir(home) + "/"@ + attr + ".nix"@,
        home.len() > 0 && home.last() != '/' ==> modules_dir(home) == home
            + "/.config/home-manager/apps"@,
        home.len() == 0 || home.last() == '/' ==> modules_dir(home) == home
            + ".config/home-manager/apps"@,
{
    reveal_strlit(".nix");
    reveal_strlit("/");
    reveal_strlit(".config/home-manager/apps");
    reveal_strlit("/.config/home-manager/apps");
    let dir = modules_dir(home);
    assert(dir.last() == 's');
    if is_absolute(attr) {
        assert((attr + ".nix"@)[0] == '/');
    } else {
        assert((attr + ".nix"@)[0] != '/');
        assert(module_at(home, attr) =~= dir + "/"@ + attr + ".nix"@);
    }
    if home.len() > 0 && home.last() != '/' {
        assert(modules_dir(home) =~= home + "/.config/home-manager/apps"@);
    }
}

/// Installing and uninstalling first change the module and then switch: all files are staged
/// before Home Manager runs, only its failure stops the switch, and it runs for the user's part of
/// the flake in the configuration that was staged.
pub proof fn switches_come_last(
    attr: Seq<char>,
    home: Seq<char>,
    user: Option<Seq<char>>,
    steps: Seq<NixStep>,
    install: bool,
)
    requires
        step_views(steps) == if install {
            install_steps(attr, home, user)
        } else {
            uninstall_steps(attr, home, user)
        },
    ensures
        steps.len() == if install {
            4nat
        } else {
            3nat
        },
        !install ==> (steps[0] matches NixStep::RemoveFile(path) && path@ == module_at(
            home,
            short_attr(attr),
        )),
        steps[steps.len() - 2] matches NixStep::Run(command, message) && message is None
            && command.program@ == "git"@ && command.args@.len() == 4 && command.args@[0]@ == "-C"@
            && command.args@[1]@ == hm_config(home) && command.args@[2]@ == "add"@
            && command.args@[3]@ == "-A"@,
        steps[steps.len() - 1] matches NixStep::Run(command, message) && message is Some
            && message->0@ == "home-manager switch failed"@ && command.program@ == "home-manager"@ && command.args@.len() == 3 && command.args@[0]@
            == "switch"@ && command.args@[1]@ == "--flake"@ && command.args@[2]@ == hm_config(home)
            + "#"@ + user_name(user),
{
    let views = step_views(steps);
    let n = steps.len() as int;
    assert(views.len() == steps.len());
    assert(views[0] == steps[0]@);
    assert(views[n - 2] == steps[n - 2]@);
    assert(views[n - 1] == steps[n - 1]@);
    assert(views[n - 2] == switch_steps(home, user)[0]);
    assert(views[n - 1] == switch_steps(home, user)[1]);
    if let NixStep::Run(command, message) = steps[n - 2] {
        let args = command@.args;
        assert(args.len() == command.args@.len());
        assert(forall|i: int|
            0 <= i < args.len() ==> (#[trigger] command.args@[i])@ == args[i]);
    }
    if let NixStep::Run(command, message) = steps[n - 1] {
        let args = command@.args;
        assert(args.len() == command.args@.len());
        assert(forall|i: int|
            0 <= i < args.len() ==> (#[trigger] command.args@[i])@ == args[i]);
    }
}

/// A package counts as installed exactly if its module file exists in the home directory.
pub proof fn installed_means_module_exists(
    attr: Seq<char>,
    home: Option<Seq<char>>,
    existing: Seq<Seq<char>>,
)
    ensures
        has_module(attr, home, existing) <==> home is Some && exists|i: int|
            0 <= i < existing.len() && #[trigger] existing[i] == module_at(
                home->0,
                short_attr(attr),
            ),
{
}

} // verus!
